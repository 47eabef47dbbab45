//! The last-game stats handler's configuration: which summoner to look up,
//! decoded from a rule's `additional_inputs`.

use vstd::prelude::*;

use crate::apis::op_gg::Region;

verus! {

/// The rule configuration of the last-game handler: the region and name of
/// the player whose most recent game is reported.
#[derive(Clone, Debug, PartialEq)]
pub struct AdditionalInputs {
    pub region: Region,
    pub summoner_name: String,
}

} // verus!
