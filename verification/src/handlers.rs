//! The handler-specific configuration and render-context types: what each
//! stats handler decodes from a rule's `additional_inputs` and hands to its
//! template.

pub mod gg;
pub mod sniffa;
pub mod the_grind;
