//! The rank-tracker handler: its configuration, and the render context built
//! from a summoner profile — the profile beside its most recent rating-
//! history entry.

use vstd::prelude::*;

use crate::apis::op_gg::LpHistory;
use crate::apis::op_gg::Region;
use crate::apis::op_gg::SummonerJson;

verus! {

/// The rule configuration of the rank tracker: the region and name of the
/// player whose rating history is reported.
#[derive(Clone, Debug, PartialEq)]
pub struct AdditionalInputs {
    pub region: Region,
    pub summoner_name: String,
}

/// The render context of the rank tracker: the profile and its latest
/// rating-history entry, if it has any.
#[derive(Clone, Debug, PartialEq)]
pub struct TemplateInputs {
    pub summoner_json: SummonerJson,
    pub last_lp_history: Option<LpHistory>,
}

/// Whether `hs[k]` is the latest entry: no entry is later, and every earlier
/// index is strictly older — the entry a stable sort by descending
/// `created_at` puts first.
pub open spec fn is_latest_entry(hs: Seq<LpHistory>, k: int) -> bool {
    &&& 0 <= k < hs.len()
    &&& forall|j: int| 0 <= j < hs.len() ==> (#[trigger] hs[j]).created_at <= hs[k].created_at
    &&& forall|j: int| 0 <= j < k ==> (#[trigger] hs[j]).created_at < hs[k].created_at
}

impl TemplateInputs {
    /// Builds the render context from a profile: the profile itself, and the
    /// rating-history entry with the latest timestamp (the first of equals),
    /// or nothing for an empty history.
    pub fn from_summoner_json(value: SummonerJson) -> (r: TemplateInputs)
        ensures
            r.summoner_json == value,
            value.lp_histories@.len() == 0 ==> r.last_lp_history is None,
            value.lp_histories@.len() > 0 ==> (r.last_lp_history matches Some(h) && exists|k: int|
                is_latest_entry(value.lp_histories@, k) && h == value.lp_histories@[k]),
    {
        let hs = &value.lp_histories;
        if hs.len() == 0 {
            return TemplateInputs { summoner_json: value, last_lp_history: None };
        }
        let mut best: usize = 0;
        let mut i: usize = 1;
        while i < hs.len()
            invariant
                0 <= best < i <= hs@.len(),
                forall|j: int|
                    0 <= j < i ==> (#[trigger] hs@[j]).created_at <= hs@[best as int].created_at,
                forall|j: int|
                    0 <= j < best ==> (#[trigger] hs@[j]).created_at < hs@[best as int].created_at,
            decreases hs@.len() - i,
        {
            if hs[i].created_at > hs[best].created_at {
                best = i;
            }
            i += 1;
        }
        let latest = hs[best].clone();
        proof {
            assert(is_latest_entry(value.lp_histories@, best as int));
        }
        TemplateInputs { summoner_json: value, last_lp_history: Some(latest) }
    }
}

} // verus!
