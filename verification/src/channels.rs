//! The channel record and the time-zone newtype: a channel is configured
//! out-of-band and read by the bot; its time zone is kept as the canonical
//! zone name, validated against the zone table on the way in.

use vstd::prelude::*;
use vstd::string::*;

use crate::templates_env::tz_canonical;
use crate::templates_env::tz_lookup;

verus! {

/// A time zone, held as its canonical name in the zone table.
#[derive(Debug, PartialEq)]
pub struct Timezone {
    name: String,
}

impl Clone for Timezone {
    fn clone(&self) -> (r: Self)
        ensures
            r == *self,
    {
        Timezone { name: self.name.clone() }
    }
}

impl Timezone {
    /// The canonical zone name.
    pub closed spec fn name_spec(&self) -> Seq<char> {
        self.name@
    }

    /// The held name is canonical: looking it up yields it again.
    pub closed spec fn wf(&self) -> bool {
        tz_canonical(self.name@) == Some(self.name@)
    }

    /// Validates a zone name; `Some` exactly for a name the zone table
    /// knows, holding its canonical form. The held name is canonical, so
    /// looking it up again yields it back: the name round-trips.
    pub fn new(name: &str) -> (r: Option<Timezone>)
        ensures
            r is Some <==> tz_canonical(name@) is Some,
            r matches Some(tz) ==> tz.wf() && Some(tz.name_spec()) == tz_canonical(name@)
                && tz_canonical(tz.name_spec()) == Some(tz.name_spec()),
    {
        match tz_lookup(name) {
            Some(canonical) => Some(Timezone { name: canonical }),
            None => None,
        }
    }

    /// Parses a zone name; the error names the rejected text. A parsed zone
    /// holds the canonical name, which parses back to itself.
    pub fn from_str(s: &str) -> (r: Result<Timezone, String>)
        ensures
            r is Ok <==> tz_canonical(s@) is Some,
            r matches Ok(tz) ==> tz.wf() && Some(tz.name_spec()) == tz_canonical(s@)
                && tz_canonical(tz.name_spec()) == Some(tz.name_spec()),
    {
        match Timezone::new(s) {
            Some(tz) => Ok(tz),
            None => {
                let mut e = String::new();
                e.append(s);
                e.append(" cannot be parsed into a known time zone");
                Err(e)
            },
        }
    }

    pub fn as_inner(&self) -> (r: &String)
        ensures
            r@ == self.name_spec(),
    {
        &self.name
    }

    pub fn into_inner(self) -> (r: String)
        ensures
            r@ == self.name_spec(),
    {
        self.name
    }
}

/// A calendar date.
#[derive(Clone, Copy, Debug, PartialEq, Eq, Structural)]
pub struct Date {
    pub year: i32,
    pub month: u8,
    pub day: u8,
}

impl Date {
    /// Months and days stay in calendar range.
    pub open spec fn wf(&self) -> bool {
        1 <= self.month <= 12 && 1 <= self.day <= 31
    }
}

/// A configured channel: who casts on it, an optional date of birth, the
/// channel's time zone, an optional emote-set id, and bookkeeping timestamps
/// in seconds since the Unix epoch.
#[derive(Clone, Debug, PartialEq)]
pub struct Channel {
    pub name: String,
    pub caster: String,
    pub date_of_birth: Option<Date>,
    pub timezone: Timezone,
    pub seven_tv_id: Option<String>,
    pub created_at: i64,
    pub updated_at: i64,
}

impl Channel {
    /// The held time zone stays canonical and the date in range.
    pub open spec fn wf(&self) -> bool {
        self.timezone.wf() && match self.date_of_birth {
            Some(d) => d.wf(),
            None => true,
        }
    }
}

} // verus!
