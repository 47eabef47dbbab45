//! The chat platform's sender-role test: a sender carrying a moderator or
//! broadcaster badge bypasses throttling and moderation.

use vstd::prelude::*;

use crate::text::str_eq;

verus! {

/// Whether one of the badge names marks a privileged sender.
pub open spec fn privileged_badges(badges: Seq<Seq<char>>) -> bool {
    exists|i: int|
        0 <= i < badges.len() && ((#[trigger] badges[i]) == "moderator"@ || badges[i]
            == "broadcaster"@)
}

/// Whether the sender of a message is the streamer or a moderator, judged by
/// the badge names the message carries.
pub fn is_from_streamer_or_mod(badge_names: &Vec<String>) -> (r: bool)
    ensures
        r == privileged_badges(badge_names@.map_values(|b: String| b@)),
{
    let ghost views = badge_names@.map_values(|b: String| b@);
    let mut i: usize = 0;
    while i < badge_names.len()
        invariant
            0 <= i <= badge_names@.len(),
            views == badge_names@.map_values(|b: String| b@),
            forall|j: int|
                0 <= j < i ==> !((#[trigger] views[j]) == "moderator"@ || views[j]
                    == "broadcaster"@),
        decreases badge_names@.len() - i,
    {
        let b = &badge_names[i];
        if str_eq(b.as_str(), "moderator") || str_eq(b.as_str(), "broadcaster") {
            proof {
                assert(views[i as int] == b@);
            }
            return true;
        }
        i += 1;
    }
    false
}

} // verus!
