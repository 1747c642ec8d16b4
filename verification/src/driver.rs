//! The update loop's failure policy: three failed updates in a row stop the
//! loop, and any successful update clears the count. An update command that
//! cannot be run counts as one that failed.

use vstd::prelude::*;

verus! {

/// Consecutive failed updates after which the loop gives up.
pub const FAILURE_LIMIT: u32 = 3;

/// How one update of the status bar ended.
#[derive(Clone, Copy, Debug, PartialEq, Eq)]
pub enum Update {
    /// The update command ran and reported success.
    Succeeded,
    /// The update command ran and reported failure.
    Failed,
    /// The update command could not be run.
    NotRun,
}

impl Update {
    /// Whether the update counts against the loop: all but a success do.
    pub open spec fn is_failure(self) -> bool {
        !(self is Succeeded)
    }

    /// The outcome of an update command: `None` where it could not be run,
    /// else whether it reported success.
    pub fn of_exit(exit: Option<bool>) -> (update: Update)
        ensures
            update == match exit {
                Some(true) => Update::Succeeded,
                Some(false) => Update::Failed,
                None => Update::NotRun,
            },
    {
        match exit {
            Some(true) => Update::Succeeded,
            Some(false) => Update::Failed,
            None => Update::NotRun,
        }
    }
}

/// Where the update loop stands.
#[derive(Clone, Copy, Debug, PartialEq, Eq)]
pub enum LoopState {
    /// Updating, with the count of updates that failed since the last success.
    Running { failures: u32 },
    /// Given up; nothing leads out of this state.
    Stopped,
}

/// What the loop does after an update.
#[derive(Clone, Copy, Debug, PartialEq, Eq)]
pub enum Action {
    /// Sleep to the next interval boundary, then update again.
    SleepThenUpdate,
    /// Leave the loop.
    Exit,
}

/// The state after one more update.
pub open spec fn step(state: LoopState, update: Update) -> LoopState {
    match state {
        LoopState::Stopped => LoopState::Stopped,
        LoopState::Running { failures } => if !update.is_failure() {
            LoopState::Running { failures: 0 }
        } else if failures + 1 >= FAILURE_LIMIT {
            LoopState::Stopped
        } else {
            LoopState::Running { failures: (failures + 1) as u32 }
        },
    }
}

/// The state after a run of updates, starting with no failure counted.
pub open spec fn run(outcomes: Seq<Update>) -> LoopState
    decreases outcomes.len(),
{
    if outcomes.len() == 0 {
        LoopState::Running { failures: 0 }
    } else {
        step(run(outcomes.drop_last()), outcomes.last())
    }
}

/// Whether three updates in a row failed somewhere in the run.
pub open spec fn failed_thrice_in_a_row(outcomes: Seq<Update>) -> bool {
    exists|i: int|
        0 <= i && i + 3 <= outcomes.len() && (#[trigger] outcomes[i]).is_failure() && outcomes[i
            + 1].is_failure() && outcomes[i + 2].is_failure()
}

/// What the loop does in a state.
pub open spec fn action_in(state: LoopState) -> Action {
    match state {
        LoopState::Running { .. } => Action::SleepThenUpdate,
        LoopState::Stopped => Action::Exit,
    }
}

impl LoopState {
    /// The state on entry to the loop.
    pub fn start() -> (state: LoopState)
        ensures
            state == run(Seq::empty()),
    {
        LoopState::Running { failures: 0 }
    }

    /// Whether the loop is still updating.
    pub fn is_running(&self) -> (running: bool)
        ensures
            running == (*self is Running),
    {
        match self {
            LoopState::Running { .. } => true,
            LoopState::Stopped => false,
        }
    }
}

/// Takes in the outcome of one update: the next state, and what to do in it.
pub fn advance(state: LoopState, update: Update) -> (next: (LoopState, Action))
    ensures
        next.0 == step(state, update),
        next.1 == action_in(next.0),
{
    match state {
        LoopState::Stopped => (LoopState::Stopped, Action::Exit),
        LoopState::Running { failures } => match update {
            Update::Succeeded => (LoopState::Running { failures: 0 }, Action::SleepThenUpdate),
            Update::Failed | Update::NotRun => {
                if failures >= FAILURE_LIMIT - 1 {
                    (LoopState::Stopped, Action::Exit)
                } else {
                    (LoopState::Running { failures: failures + 1 }, Action::SleepThenUpdate)
                }
            },
        },
    }
}

/// The number of failures at the end of the run, since its last success.
pub open spec fn trailing_failures(outcomes: Seq<Update>) -> nat
    decreases outcomes.len(),
{
    if outcomes.len() == 0 || !outcomes.last().is_failure() {
        0
    } else {
        1 + trailing_failures(outcomes.drop_last())
    }
}

/// A run that has not stopped counts exactly its trailing failures, fewer
/// than three, and holds no three failures in a row; a run that has stopped
/// holds three.
pub proof fn lemma_count_is_trailing_failures(outcomes: Seq<Update>)
    ensures
        match run(outcomes) {
            LoopState::Running { failures } => failures == trailing_failures(outcomes) && failures
                < 3 && !failed_thrice_in_a_row(outcomes),
            LoopState::Stopped => failed_thrice_in_a_row(outcomes),
        },
    decreases outcomes.len(),
{
    if outcomes.len() > 0 {
        let before = outcomes.drop_last();
        let n = before.len() as int;
        lemma_count_is_trailing_failures(before);
        match run(before) {
            LoopState::Stopped => {
                let i = choose|i: int|
                    0 <= i && i + 3 <= before.len() && (#[trigger] before[i]).is_failure()
                        && before[i + 1].is_failure() && before[i + 2].is_failure();
                assert(outcomes[i].is_failure() && outcomes[i + 1].is_failure() && outcomes[i
                    + 2].is_failure());
            },
            LoopState::Running { failures } => {
                if !outcomes.last().is_failure() || failures + 1 < 3 {
                    assert(!failed_thrice_in_a_row(outcomes)) by {
                        if failed_thrice_in_a_row(outcomes) {
                            let i = choose|i: int|
                                0 <= i && i + 3 <= outcomes.len() && (
                                #[trigger] outcomes[i]).is_failure() && outcomes[i
                                    + 1].is_failure() && outcomes[i + 2].is_failure();
                            if i + 3 <= n {
                                assert(before[i].is_failure() && before[i + 1].is_failure()
                                    && before[i + 2].is_failure());
                            } else {
                                assert(before[n - 2].is_failure() && before.last().is_failure());
                                assert(trailing_failures(before.drop_last()) >= 1);
                            }
                        }
                    }
                } else {
                    assert(trailing_failures(before.drop_last()) == 1);
                    assert(outcomes[n - 2].is_failure() && outcomes[n - 1].is_failure()
                        && outcomes[n].is_failure());
                }
            },
        }
    }
}

/// The loop stops exactly on three failed updates in a row: however many
/// updates failed in all, a run ends stopped if and only if it holds three
/// consecutive failures.
pub proof fn lemma_stops_on_three_consecutive_failures(outcomes: Seq<Update>)
    ensures
        run(outcomes) is Stopped <==> failed_thrice_in_a_row(outcomes),
{
    lemma_count_is_trailing_failures(outcomes);
}

/// A success clears the count: after any run that has not stopped, one
/// success leaves the loop three failures away from stopping again, whether
/// the update command failed or could not be run.
pub proof fn lemma_success_resets(outcomes: Seq<Update>, x: Update, y: Update, z: Update)
    requires
        run(outcomes) is Running,
        x.is_failure(),
        y.is_failure(),
        z.is_failure(),
    ensures
        run(outcomes.push(Update::Succeeded)) == (LoopState::Running { failures: 0 }),
        run(outcomes.push(Update::Succeeded).push(x).push(y)) is Running,
        run(outcomes.push(Update::Succeeded).push(x).push(y).push(z)) is Stopped,
{
    let a = outcomes.push(Update::Succeeded);
    let b = a.push(x);
    let c = b.push(y);
    let d = c.push(z);
    assert(a.drop_last() =~= outcomes);
    assert(b.drop_last() =~= a);
    assert(c.drop_last() =~= b);
    assert(d.drop_last() =~= c);
    assert(run(a) == LoopState::Running { failures: 0 });
    assert(run(b) == LoopState::Running { failures: 1 });
    assert(run(c) == LoopState::Running { failures: 2 });
    assert(run(d) == LoopState::Stopped);
}

/// Once stopped, the loop stays stopped whatever comes after.
pub proof fn lemma_stopped_is_terminal(outcomes: Seq<Update>, more: Seq<Update>)
    requires
        run(outcomes) is Stopped,
    ensures
        run(outcomes + more) is Stopped,
    decreases more.len(),
{
    if more.len() == 0 {
        assert(outcomes + more =~= outcomes);
    } else {
        assert((outcomes + more).drop_last() =~= outcomes + more.drop_last());
        lemma_stopped_is_terminal(outcomes, more.drop_last());
    }
}

} // verus!
