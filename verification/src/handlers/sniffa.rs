//! The spectate handler's configuration: which summoner's live-game status
//! to look up, decoded from a rule's `additional_inputs`.

use vstd::prelude::*;

use crate::apis::op_gg::Region;

verus! {

/// The rule configuration of the spectate handler: the region and name of
/// the player whose live game is looked up.
#[derive(Clone, Debug, PartialEq)]
pub struct AdditionalInputs {
    pub region: Region,
    pub summoner_name: String,
}

} // verus!
