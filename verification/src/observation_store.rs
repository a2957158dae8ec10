//! How the observation log is written and read. The engine that keeps the
//! log does the work; what is asked of it, in which order, and what its
//! answers mean for the caller is decided here.

use crate::errors::{PersistenceError, ServicesError};
use crate::observed_tcn::{is_decoding_of, observations_from_records, record_of, ObservedTcn};
use vstd::prelude::*;

verus! {

/// What a write asks of the engine.
#[derive(Debug, Clone, Copy, PartialEq, Eq)]
pub enum StoreAction {
    /// Open a transaction.
    Begin,
    /// Append the record to the log, inside the transaction.
    InsertRecord([u8; 24]),
    /// Get the transaction ready to be committed.
    PrepareCommit,
    /// Commit the transaction.
    Commit,
}

/// How far a write has come.
#[derive(Debug, Clone, PartialEq, Eq)]
pub enum SaveState {
    /// Nothing was asked of the engine yet.
    Ready,
    /// The transaction is open.
    Begun,
    /// The record is in the transaction.
    Inserted,
    /// The transaction is ready to be committed.
    Prepared,
    /// The transaction is committed: the record is in the log.
    Committed,
    /// A step failed, and the transaction is given up: nothing of the write
    /// is in the log.
    RolledBack(PersistenceError),
}

/// The write of one observation: one transaction, which the engine is led
/// through step by step.
pub struct SaveTransaction {
    pub observed_tcn: ObservedTcn,
    pub state: SaveState,
}

/// Whether the write is over.
pub open spec fn is_done(state: SaveState) -> bool {
    state is Committed || state is RolledBack
}

/// The state after the step that was asked for in `state` ended with
/// `outcome`: one step further where it went through, given up where it
/// failed. A write that is over stays as it is.
pub open spec fn state_after(state: SaveState, outcome: Result<(), PersistenceError>) -> SaveState {
    if is_done(state) {
        state
    } else {
        match outcome {
            Err(error) => SaveState::RolledBack(error),
            Ok(_) => match state {
                SaveState::Ready => SaveState::Begun,
                SaveState::Begun => SaveState::Inserted,
                SaveState::Inserted => SaveState::Prepared,
                _ => SaveState::Committed,
            },
        }
    }
}

/// The state after the steps of a write ended with `outcomes`, one after
/// the other.
pub open spec fn state_after_all(
    state: SaveState,
    outcomes: Seq<Result<(), PersistenceError>>,
) -> SaveState
    decreases outcomes.len(),
{
    if outcomes.len() == 0 {
        state
    } else {
        state_after(state_after_all(state, outcomes.drop_last()), outcomes.last())
    }
}

impl SaveTransaction {
    /// What the write came to: nothing yet where it is not over.
    pub open spec fn spec_result(&self) -> Option<Result<(), ServicesError>> {
        match self.state {
            SaveState::Committed => Some(Ok(())),
            SaveState::RolledBack(error) => Some(Err(ServicesError::Persistence(error))),
            _ => None,
        }
    }

    /// A write of the observation, of which nothing is done yet.
    pub fn new(observed_tcn: ObservedTcn) -> (save: SaveTransaction)
        ensures
            save.observed_tcn == observed_tcn,
            save.state == SaveState::Ready,
    {
        SaveTransaction { observed_tcn, state: SaveState::Ready }
    }

    /// What to ask of the engine next. `None` where the write is over.
    pub fn next_action(&self) -> (action: Option<StoreAction>)
        ensures
            action is None <==> is_done(self.state),
            match action {
                Some(StoreAction::InsertRecord(record)) => self.state is Begun && record@
                    == record_of(self.observed_tcn),
                Some(StoreAction::Begin) => self.state is Ready,
                Some(StoreAction::PrepareCommit) => self.state is Inserted,
                Some(StoreAction::Commit) => self.state is Prepared,
                None => true,
            },
    {
        match &self.state {
            SaveState::Ready => Some(StoreAction::Begin),
            SaveState::Begun => Some(StoreAction::InsertRecord(self.observed_tcn.as_bytes())),
            SaveState::Inserted => Some(StoreAction::PrepareCommit),
            SaveState::Prepared => Some(StoreAction::Commit),
            SaveState::Committed => None,
            SaveState::RolledBack(_) => None,
        }
    }

    /// Takes note of how the step that was asked for ended.
    pub fn advance(&mut self, outcome: Result<(), PersistenceError>)
        ensures
            final(self).observed_tcn == old(self).observed_tcn,
            final(self).state == state_after(old(self).state, outcome),
    {
        let next: Option<SaveState> = match &self.state {
            SaveState::Committed => None,
            SaveState::RolledBack(_) => None,
            SaveState::Ready => Some(SaveState::Begun),
            SaveState::Begun => Some(SaveState::Inserted),
            SaveState::Inserted => Some(SaveState::Prepared),
            SaveState::Prepared => Some(SaveState::Committed),
        };
        if let Some(next) = next {
            match outcome {
                Ok(_) => {
                    self.state = next;
                },
                Err(error) => {
                    self.state = SaveState::RolledBack(error);
                },
            }
        }
    }

    /// What the write came to: `Ok` where the transaction was committed,
    /// the failure where it was given up, `None` where it is not over.
    pub fn into_result(self) -> (res: Option<Result<(), ServicesError>>)
        ensures
            res == self.spec_result(),
            res is Some <==> is_done(self.state),
    {
        match self.state {
            SaveState::Committed => Some(Ok(())),
            SaveState::RolledBack(error) => Some(Err(ServicesError::Persistence(error))),
            _ => None,
        }
    }
}

/// What a scan of the log gives the caller: the observations that its
/// records hold, in the order of the scan. A scan that the engine refuses,
/// be it because the engine is not initialized, fails with what the engine
/// said; a record that holds no observation makes the whole scan fail.
pub fn observations_from_scan(scan: Result<Vec<Vec<u8>>, PersistenceError>) -> (res: Result<
    Vec<ObservedTcn>,
    ServicesError,
>)
    ensures
        match scan {
            Ok(records) => is_decoding_of(records@, res),
            Err(error) => res matches Err(failed) && failed == ServicesError::Persistence(error),
        },
{
    match scan {
        Ok(records) => observations_from_records(&records),
        Err(error) => Err(ServicesError::Persistence(error)),
    }
}

/// How many steps of a write went through.
pub open spec fn steps_done(state: SaveState) -> nat {
    match state {
        SaveState::Ready => 0,
        SaveState::Begun => 1,
        SaveState::Inserted => 2,
        SaveState::Prepared => 3,
        SaveState::Committed => 4,
        SaveState::RolledBack(_) => 0,
    }
}

/// Whether the first `count` of the outcomes are successes.
pub open spec fn all_went_through(outcomes: Seq<Result<(), PersistenceError>>, count: int) -> bool {
    forall|i: int| 0 <= i < count && i < outcomes.len() ==> (#[trigger] outcomes[i]) is Ok
}

/// The outcome of a step that failed with `error`.
pub open spec fn failure(error: PersistenceError) -> Result<(), PersistenceError> {
    Err(error)
}

/// Whether `error` is the first failure among the outcomes, and comes at
/// the step `k`, one of the four steps of a write.
pub open spec fn is_first_failure_at(
    outcomes: Seq<Result<(), PersistenceError>>,
    error: PersistenceError,
    k: int,
) -> bool {
    &&& 0 <= k < 4
    &&& k < outcomes.len()
    &&& outcomes[k] == failure(error)
    &&& all_went_through(outcomes, k)
}

/// Whether `error` is the first failure among the outcomes, and comes at
/// one of the four steps of a write.
pub open spec fn is_first_failure(
    outcomes: Seq<Result<(), PersistenceError>>,
    error: PersistenceError,
) -> bool {
    exists|k: int| #[trigger] is_first_failure_at(outcomes, error, k)
}

/// All or nothing: a write ends committed if and only if each of its four
/// steps went through, in their order. The first step that fails ends it:
/// the write is given up with that failure, and no later step changes
/// that. After four steps at the latest the write is over, one way or the
/// other; as long as fewer went through and none failed, it is not.
pub proof fn lemma_write_is_all_or_nothing(outcomes: Seq<Result<(), PersistenceError>>)
    ensures
        state_after_all(SaveState::Ready, outcomes) is Committed <==> outcomes.len() >= 4
            && all_went_through(outcomes, 4),
        outcomes.len() >= 4 ==> is_done(state_after_all(SaveState::Ready, outcomes)),
        match state_after_all(SaveState::Ready, outcomes) {
            SaveState::RolledBack(error) => is_first_failure(outcomes, error),
            state => all_went_through(outcomes, 4) && steps_done(state) == (if outcomes.len() < 4 {
                outcomes.len()
            } else {
                4
            }),
        },
    decreases outcomes.len(),
{
    if outcomes.len() > 0 {
        let before = outcomes.drop_last();
        let last = outcomes.len() - 1;
        lemma_write_is_all_or_nothing(before);
        match state_after_all(SaveState::Ready, before) {
            SaveState::RolledBack(error) => {
                let k = choose|k: int| #[trigger] is_first_failure_at(before, error, k);
                assert(outcomes[k] == before[k]);
                assert forall|i: int| 0 <= i < k && i < outcomes.len() implies outcomes[i] is Ok
                by {
                    assert(before[i] is Ok);
                }
                assert(is_first_failure_at(outcomes, error, k));
            },
            state => {
                assert forall|i: int| 0 <= i < last && i < 4 implies outcomes[i] is Ok by {
                    assert(before[i] is Ok);
                }
                match outcomes.last() {
                    Err(error) => {
                        if last < 4 {
                            assert(is_first_failure_at(outcomes, error, last));
                        }
                    },
                    Ok(_) => {},
                }
            },
        }
    }
}

} // verus!
