//! The cross-cutting rate limiter: per rule id, the time of its last firing,
//! kept in memory only and lost on restart. Privileged senders (moderator or
//! broadcaster) always bypass it.

use vstd::prelude::*;

verus! {

/// The default minimum time between two renders of the same rule for
/// non-privileged senders, in seconds; a configuration value, not a law.
pub const DEFAULT_THROTTLE_WINDOW_SECONDS: i64 = 15;

/// The timestamp recorded for `id` in `entries`, if any.
pub open spec fn lookup(entries: Seq<(i64, i64)>, id: i64) -> Option<i64>
    decreases entries.len(),
{
    if entries.len() == 0 {
        None
    } else if entries[0].0 == id {
        Some(entries[0].1)
    } else {
        lookup(entries.subrange(1, entries.len() as int), id)
    }
}

/// The per-rule firing record: maps a rule id to the timestamp (seconds since
/// the Unix epoch) of its last allowed firing.
pub struct Throttle {
    window_seconds: i64,
    entries: Vec<(i64, i64)>,
}

impl Throttle {
    pub closed spec fn entries_view(&self) -> Seq<(i64, i64)> {
        self.entries@
    }

    /// The configured window, in seconds.
    pub closed spec fn window_spec(&self) -> int {
        self.window_seconds as int
    }

    /// The recorded last-firing timestamp for `id`, if any.
    pub open spec fn recorded(&self, id: i64) -> Option<i64> {
        lookup(self.entries_view(), id)
    }

    /// Rule ids occur at most once and all recorded timestamps are
    /// non-negative; the window is non-negative.
    pub closed spec fn wf(&self) -> bool {
        &&& forall|i: int, j: int|
            0 <= i < j < self.entries@.len() ==> (#[trigger] self.entries@[i]).0 != (
            #[trigger] self.entries@[j]).0
        &&& forall|i: int| 0 <= i < self.entries@.len() ==> (#[trigger] self.entries@[i]).1 >= 0
        &&& self.window_seconds >= 0
    }

    pub fn new(window_seconds: i64) -> (r: Self)
        requires
            window_seconds >= 0,
        ensures
            r.wf(),
            r.window_spec() == window_seconds,
            forall|id: i64| r.recorded(id) is None,
    {
        Throttle { window_seconds, entries: Vec::new() }
    }

    /// Whether a firing of `reply_id` now must be suppressed: never for a
    /// privileged sender; otherwise exactly when a prior firing is recorded
    /// and less than the window has passed since it.
    pub open spec fn suppresses(&self, reply_id: i64, privileged: bool, now: i64) -> bool {
        !privileged && match self.recorded(reply_id) {
            Some(last) => now - last < self.window_spec(),
            None => false,
        }
    }

    /// Consults and updates the limiter for one firing of `reply_id`:
    /// returns whether the firing must be suppressed, and on an allowed
    /// non-privileged firing records `now` as the rule's last firing,
    /// leaving every other rule's record unchanged.
    pub fn should_throttle(&mut self, reply_id: i64, privileged: bool, now: i64) -> (r: bool)
        requires
            old(self).wf(),
            now >= 0,
        ensures
            final(self).wf(),
            r == old(self).suppresses(reply_id, privileged, now),
            final(self).window_spec() == old(self).window_spec(),
            privileged ==> *final(self) == *old(self),
            r ==> *final(self) == *old(self),
            !privileged && !r ==> final(self).recorded(reply_id) == Some(now),
            forall|other: i64|
                other != reply_id ==> final(self).recorded(other) == old(self).recorded(other),
    {
        if privileged {
            return false;
        }
        let n = self.entries.len();
        let mut i: usize = 0;
        let mut found: Option<usize> = None;
        while i < n
            invariant
                0 <= i <= n,
                n == self.entries@.len(),
                match found {
                    Some(k) => k < i && self.entries@[k as int].0 == reply_id,
                    None => forall|j: int| 0 <= j < i ==> (#[trigger] self.entries@[j]).0 != reply_id,
                },
            decreases n - i,
        {
            if found.is_none() && self.entries[i].0 == reply_id {
                found = Some(i);
            }
            i += 1;
        }
        match found {
            Some(k) => {
                proof {
                    lemma_lookup_at_index(self.entries@, reply_id, k as int);
                }
                let last = self.entries[k].1;
                if now - last < self.window_seconds {
                    true
                } else {
                    self.entries[k] = (reply_id, now);
                    proof {
                        lemma_lookup_after_update(old(self).entries@, reply_id, k as int, now);
                    }
                    false
                }
            },
            None => {
                proof {
                    lemma_lookup_absent(self.entries@, reply_id);
                }
                self.entries.push((reply_id, now));
                proof {
                    lemma_lookup_after_push(old(self).entries@, reply_id, now);
                }
                false
            },
        }
    }
}

proof fn lemma_lookup_at_index(entries: Seq<(i64, i64)>, id: i64, k: int)
    requires
        0 <= k < entries.len(),
        entries[k].0 == id,
        forall|i: int, j: int|
            0 <= i < j < entries.len() ==> (#[trigger] entries[i]).0 != (#[trigger] entries[j]).0,
    ensures
        lookup(entries, id) == Some(entries[k].1),
    decreases entries.len(),
{
    if k == 0 {
    } else {
        assert(entries[0].0 != id);
        let rest = entries.subrange(1, entries.len() as int);
        assert(rest[k - 1] == entries[k]);
        assert(forall|i: int, j: int|
            0 <= i < j < rest.len() ==> (#[trigger] rest[i]).0 != (#[trigger] rest[j]).0) by {
            assert(forall|i: int| 0 <= i < rest.len() ==> rest[i] == entries[i + 1]);
        }
        lemma_lookup_at_index(rest, id, k - 1);
    }
}

proof fn lemma_lookup_absent(entries: Seq<(i64, i64)>, id: i64)
    requires
        forall|j: int| 0 <= j < entries.len() ==> (#[trigger] entries[j]).0 != id,
    ensures
        lookup(entries, id) is None,
    decreases entries.len(),
{
    if entries.len() > 0 {
        let rest = entries.subrange(1, entries.len() as int);
        assert(forall|i: int| 0 <= i < rest.len() ==> rest[i] == entries[i + 1]);
        lemma_lookup_absent(rest, id);
    }
}

proof fn lemma_lookup_after_update(entries: Seq<(i64, i64)>, id: i64, k: int, now: i64)
    requires
        0 <= k < entries.len(),
        entries[k].0 == id,
        forall|i: int, j: int|
            0 <= i < j < entries.len() ==> (#[trigger] entries[i]).0 != (#[trigger] entries[j]).0,
    ensures
        lookup(entries.update(k, (id, now)), id) == Some(now),
        forall|other: i64|
            other != id ==> lookup(entries.update(k, (id, now)), other) == lookup(entries, other),
    decreases entries.len(),
{
    let upd = entries.update(k, (id, now));
    assert(forall|i: int, j: int|
        0 <= i < j < upd.len() ==> (#[trigger] upd[i]).0 != (#[trigger] upd[j]).0) by {
        assert(forall|i: int| 0 <= i < upd.len() && i != k ==> upd[i] == entries[i]);
        assert(upd[k].0 == entries[k].0);
    }
    lemma_lookup_at_index(upd, id, k);
    assert forall|other: i64| other != id implies lookup(upd, other) == lookup(
        entries,
        other,
    ) by {
        lemma_lookup_update_other(entries, k, (id, now), other);
    }
}

proof fn lemma_lookup_update_other(entries: Seq<(i64, i64)>, k: int, v: (i64, i64), other: i64)
    requires
        0 <= k < entries.len(),
        entries[k].0 == v.0,
        other != v.0,
    ensures
        lookup(entries.update(k, v), other) == lookup(entries, other),
    decreases entries.len(),
{
    let upd = entries.update(k, v);
    if k == 0 {
        assert(upd[0].0 != other);
        assert(entries[0].0 != other);
        assert(upd.subrange(1, upd.len() as int) =~= entries.subrange(
            1,
            entries.len() as int,
        ));
    } else {
        assert(upd[0] == entries[0]);
        if entries[0].0 == other {
        } else {
            let rest = entries.subrange(1, entries.len() as int);
            assert(upd.subrange(1, upd.len() as int) =~= rest.update(k - 1, v));
            assert(rest[k - 1] == entries[k]);
            lemma_lookup_update_other(rest, k - 1, v, other);
        }
    }
}

proof fn lemma_lookup_after_push(entries: Seq<(i64, i64)>, id: i64, now: i64)
    requires
        forall|j: int| 0 <= j < entries.len() ==> (#[trigger] entries[j]).0 != id,
    ensures
        lookup(entries.push((id, now)), id) == Some(now),
        forall|other: i64|
            other != id ==> lookup(entries.push((id, now)), other) == lookup(entries, other),
    decreases entries.len(),
{
    let p = entries.push((id, now));
    if entries.len() == 0 {
        assert(p[0] == (id, now));
        assert forall|other: i64| other != id implies lookup(p, other) == lookup(
            entries,
            other,
        ) by {
            assert(p.subrange(1, p.len() as int) =~= Seq::<(i64, i64)>::empty());
            assert(lookup(Seq::<(i64, i64)>::empty(), other) is None);
            assert(lookup(p, other) == lookup(p.subrange(1, p.len() as int), other));
        }
    } else {
        let rest = entries.subrange(1, entries.len() as int);
        assert(forall|i: int| 0 <= i < rest.len() ==> rest[i] == entries[i + 1]);
        lemma_lookup_after_push(rest, id, now);
        assert(p[0] == entries[0]);
        assert(p.subrange(1, p.len() as int) =~= rest.push((id, now)));
        assert(lookup(p, id) == Some(now));
        assert forall|other: i64| other != id implies lookup(p, other) == lookup(
            entries,
            other,
        ) by {
            if entries[0].0 == other {
                assert(lookup(p, other) == Some(p[0].1));
                assert(lookup(entries, other) == Some(entries[0].1));
            } else {
                assert(lookup(p, other) == lookup(p.subrange(1, p.len() as int), other));
                assert(lookup(entries, other) == lookup(rest, other));
            }
        }
    }
}

/// The first firing for a rule is always allowed: with nothing recorded for
/// `reply_id`, no firing is suppressed.
pub proof fn lemma_throttle_first_firing(t: Throttle, reply_id: i64, privileged: bool, now: i64)
    requires
        t.recorded(reply_id) is None,
    ensures
        !t.suppresses(reply_id, privileged, now),
{
}

/// After an allowed firing at `now`, a second firing of the same rule by a
/// non-privileged sender is suppressed exactly as long as less than the
/// window has passed.
pub proof fn lemma_throttle_second_firing(t: Throttle, reply_id: i64, now: i64, later: i64)
    requires
        t.recorded(reply_id) == Some(now),
    ensures
        later - now < t.window_spec() ==> t.suppresses(reply_id, false, later),
        later - now >= t.window_spec() ==> !t.suppresses(reply_id, false, later),
{
}

/// A privileged sender is never suppressed.
pub proof fn lemma_throttle_privileged(t: Throttle, reply_id: i64, now: i64)
    ensures
        !t.suppresses(reply_id, true, now),
{
}

} // verus!
