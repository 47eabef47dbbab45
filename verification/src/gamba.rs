//! The prediction lifecycle state machine: a raw polled prediction record is
//! derived into a small tagged state. A state that needs a timestamp which
//! the record lacks is a hard error, never silently defaulted.

use vstd::prelude::*;

use crate::text::str_eq;

verus! {

/// The status code of a raw prediction record; `Other` stands for any value
/// outside the four known ones.
#[derive(Clone, Copy, Debug, PartialEq, Eq, Structural)]
pub enum PredictionStatus {
    Active,
    Locked,
    Resolved,
    Canceled,
    Other,
}

/// One candidate outcome of a prediction, as the record reports it.
#[derive(Clone, Debug, PartialEq)]
pub struct PredictionOutcome {
    pub id: String,
    pub title: String,
    pub users: Option<i64>,
    pub channel_points: Option<i64>,
    pub color: String,
}

/// The raw external snapshot of a prediction: title, candidate outcomes, a
/// status code, optional lock/end timestamps (seconds since the Unix epoch),
/// the betting window in seconds, and a winning-outcome reference.
#[derive(Clone, Debug, PartialEq)]
pub struct Prediction {
    pub title: String,
    pub outcomes: Vec<PredictionOutcome>,
    pub status: PredictionStatus,
    pub prediction_window: i64,
    pub created_at: i64,
    pub ended_at: Option<i64>,
    pub locked_at: Option<i64>,
    pub winning_outcome_id: Option<String>,
}

/// One side of a prediction as the templates see it.
#[derive(Clone, Debug, PartialEq)]
pub struct Side {
    pub title: String,
    pub users: Option<i64>,
    pub betted_channel_points: Option<i64>,
    pub color: String,
}

/// The derived lifecycle state of a prediction.
#[derive(Clone, Debug, PartialEq)]
pub enum GambaState {
    Up,
    Closed { closed_at: i64 },
    Paid { winner: Side, paid_at: i64 },
    Refunded { refunded_at: i64 },
}

/// Why a record could not be derived into a state: an unknown status code,
/// or a field the observed status requires that the record lacks.
#[derive(Clone, Copy, Debug, PartialEq, Eq, Structural)]
pub enum DeriveError {
    UnexpectedStatus,
    MissingField,
}

/// The side built from an outcome.
pub open spec fn side_of(o: PredictionOutcome) -> Side {
    Side {
        title: o.title,
        users: o.users,
        betted_channel_points: o.channel_points,
        color: o.color,
    }
}

/// The first outcome whose id is `wid`, if any.
pub open spec fn find_outcome(outcomes: Seq<PredictionOutcome>, wid: Seq<char>) -> Option<
    PredictionOutcome,
>
    decreases outcomes.len(),
{
    if outcomes.len() == 0 {
        None
    } else if outcomes[0].id@ == wid {
        Some(outcomes[0])
    } else {
        find_outcome(outcomes.subrange(1, outcomes.len() as int), wid)
    }
}

/// The state derived from a record:
/// `Active` is `Up`; `Locked` needs `ended_at` and is `Closed`; `Resolved`
/// needs a `winning_outcome_id` naming a listed outcome and `locked_at`, and
/// is `Paid` with that outcome as winner; `Canceled` needs `locked_at` and is
/// `Refunded`; any other status is `UnexpectedStatus`, and a missing required
/// field is `MissingField`.
pub open spec fn derive_spec(p: Prediction) -> Result<GambaState, DeriveError> {
    match p.status {
        PredictionStatus::Active => Ok(GambaState::Up),
        PredictionStatus::Locked => match p.ended_at {
            Some(t) => Ok(GambaState::Closed { closed_at: t }),
            None => Err(DeriveError::MissingField),
        },
        PredictionStatus::Resolved => match p.winning_outcome_id {
            None => Err(DeriveError::MissingField),
            Some(wid) => match find_outcome(p.outcomes@, wid@) {
                None => Err(DeriveError::MissingField),
                Some(o) => match p.locked_at {
                    Some(t) => Ok(GambaState::Paid { winner: side_of(o), paid_at: t }),
                    None => Err(DeriveError::MissingField),
                },
            },
        },
        PredictionStatus::Canceled => match p.locked_at {
            Some(t) => Ok(GambaState::Refunded { refunded_at: t }),
            None => Err(DeriveError::MissingField),
        },
        PredictionStatus::Other => Err(DeriveError::UnexpectedStatus),
    }
}

impl Side {
    /// The side built from an outcome, field for field.
    pub fn from_outcome(o: &PredictionOutcome) -> (r: Side)
        ensures
            r == side_of(*o),
    {
        Side {
            title: o.title.clone(),
            users: o.users,
            betted_channel_points: o.channel_points,
            color: o.color.clone(),
        }
    }
}

proof fn lemma_find_outcome_at_index(outcomes: Seq<PredictionOutcome>, wid: Seq<char>, k: int)
    requires
        0 <= k < outcomes.len(),
        outcomes[k].id@ == wid,
        forall|j: int| 0 <= j < k ==> (#[trigger] outcomes[j]).id@ != wid,
    ensures
        find_outcome(outcomes, wid) == Some(outcomes[k]),
    decreases outcomes.len(),
{
    if k > 0 {
        let rest = outcomes.subrange(1, outcomes.len() as int);
        assert(forall|i: int| 0 <= i < rest.len() ==> rest[i] == outcomes[i + 1]);
        lemma_find_outcome_at_index(rest, wid, k - 1);
    }
}

proof fn lemma_find_outcome_absent(outcomes: Seq<PredictionOutcome>, wid: Seq<char>)
    requires
        forall|j: int| 0 <= j < outcomes.len() ==> (#[trigger] outcomes[j]).id@ != wid,
    ensures
        find_outcome(outcomes, wid) is None,
    decreases outcomes.len(),
{
    if outcomes.len() > 0 {
        let rest = outcomes.subrange(1, outcomes.len() as int);
        assert(forall|i: int| 0 <= i < rest.len() ==> rest[i] == outcomes[i + 1]);
        lemma_find_outcome_absent(rest, wid);
    }
}

impl GambaState {
    /// Derives the lifecycle state from a raw record, exactly as
    /// `derive_spec` lays it out.
    pub fn try_from_prediction(p: &Prediction) -> (r: Result<GambaState, DeriveError>)
        ensures
            r == derive_spec(*p),
    {
        match p.status {
            PredictionStatus::Active => Ok(GambaState::Up),
            PredictionStatus::Locked => match p.ended_at {
                Some(t) => Ok(GambaState::Closed { closed_at: t }),
                None => Err(DeriveError::MissingField),
            },
            PredictionStatus::Resolved => {
                let wid = match &p.winning_outcome_id {
                    None => {
                        return Err(DeriveError::MissingField);
                    },
                    Some(wid) => wid,
                };
                let n = p.outcomes.len();
                let mut i: usize = 0;
                while i < n
                    invariant
                        0 <= i <= n,
                        n == p.outcomes@.len(),
                        p.status is Resolved,
                        p.winning_outcome_id matches Some(w) && w@ == wid@,
                        forall|j: int| 0 <= j < i ==> (#[trigger] p.outcomes@[j]).id@ != wid@,
                    decreases n - i,
                {
                    if str_eq(p.outcomes[i].id.as_str(), wid.as_str()) {
                        proof {
                            lemma_find_outcome_at_index(p.outcomes@, wid@, i as int);
                        }
                        let winner = Side::from_outcome(&p.outcomes[i]);
                        return match p.locked_at {
                            Some(t) => Ok(GambaState::Paid { winner, paid_at: t }),
                            None => Err(DeriveError::MissingField),
                        };
                    }
                    i += 1;
                }
                proof {
                    lemma_find_outcome_absent(p.outcomes@, wid@);
                }
                Err(DeriveError::MissingField)
            },
            PredictionStatus::Canceled => match p.locked_at {
                Some(t) => Ok(GambaState::Refunded { refunded_at: t }),
                None => Err(DeriveError::MissingField),
            },
            PredictionStatus::Other => Err(DeriveError::UnexpectedStatus),
        }
    }
}

/// The render context of the prediction handler: the derived state beside
/// the raw record's title, sides, window and start time.
#[derive(Clone, Debug, PartialEq)]
pub struct Gamba {
    pub title: String,
    pub sides: Vec<Side>,
    pub state: GambaState,
    pub duration_seconds: i64,
    pub started_at: i64,
}

impl Gamba {
    /// Builds the render context from a raw record: the record's title,
    /// every outcome as a side in order, the derived state, and the window
    /// and start time copied over; fails exactly when the derivation fails.
    pub fn try_from_prediction(p: &Prediction) -> (r: Result<Gamba, DeriveError>)
        ensures
            ({
                match r {
                    Ok(g) => derive_spec(*p) matches Ok(state) && g.title == p.title && g.sides@
                        == p.outcomes@.map_values(|o: PredictionOutcome| side_of(o)) && g.state
                        == state && g.duration_seconds == p.prediction_window && g.started_at
                        == p.created_at,
                    Err(e) => derive_spec(*p) == Err::<GambaState, DeriveError>(e),
                }
            }),
    {
        let state = match GambaState::try_from_prediction(p) {
            Ok(state) => state,
            Err(e) => {
                return Err(e);
            },
        };
        let n = p.outcomes.len();
        let mut sides: Vec<Side> = Vec::new();
        let mut i: usize = 0;
        while i < n
            invariant
                0 <= i <= n,
                n == p.outcomes@.len(),
                sides@ == p.outcomes@.subrange(0, i as int).map_values(
                    |o: PredictionOutcome| side_of(o),
                ),
            decreases n - i,
        {
            sides.push(Side::from_outcome(&p.outcomes[i]));
            proof {
                assert(p.outcomes@.subrange(0, i + 1).map_values(
                    |o: PredictionOutcome| side_of(o),
                ) =~= p.outcomes@.subrange(0, i as int).map_values(
                    |o: PredictionOutcome| side_of(o),
                ).push(side_of(p.outcomes@[i as int])));
            }
            i += 1;
        }
        proof {
            assert(p.outcomes@.subrange(0, n as int) =~= p.outcomes@);
        }
        Ok(
            Gamba {
                title: p.title.clone(),
                sides,
                state,
                duration_seconds: p.prediction_window,
                started_at: p.created_at,
            },
        )
    }
}

} // verus!
