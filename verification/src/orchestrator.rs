//! The download run as a state machine.
//!
//! The program around the library does the work that takes time: it
//! creates the download directory, runs the fetches on its worker pool and
//! counts the files. After each piece of work it hands the machine an
//! event; the machine says what comes next. This fixes the order of a run:
//! no fetch starts before the directory is there, a failed fetch is counted
//! and the batch goes on, and files are counted only when every fetch has
//! come back.

use crate::error::BackupError;
use crate::text::{decimal_of, decimal_text};
use vstd::prelude::*;

verus! {

/// How one fetch ended.
#[derive(Debug, Clone, Copy, PartialEq, Eq, Structural)]
pub enum FetchOutcome {
    Succeeded,
    Failed,
}

/// The comparison of the number of entries with the number of files found
/// in the download directory after the run.
#[derive(Debug, Clone, Copy, PartialEq, Eq, Structural)]
pub enum Reconciliation {
    /// As many files as entries.
    Complete { entries: usize },
    /// The two counts differ.
    Mismatch { entries: usize, files: usize },
}

/// The comparison of `entries` with `files`.
pub open spec fn reconciliation_of(entries: usize, files: usize) -> Reconciliation {
    if entries == files {
        Reconciliation::Complete { entries }
    } else {
        Reconciliation::Mismatch { entries, files }
    }
}

/// Compares the number of entries with the number of files found.
pub fn reconcile(entries: usize, files: usize) -> (outcome: Reconciliation)
    ensures
        outcome == reconciliation_of(entries, files),
{
    if entries == files {
        Reconciliation::Complete { entries }
    } else {
        Reconciliation::Mismatch { entries, files }
    }
}

impl Reconciliation {
    /// By how much the two counts differ.
    pub open spec fn spec_difference(self) -> int {
        match self {
            Reconciliation::Complete { .. } => 0,
            Reconciliation::Mismatch { entries, files } => if entries >= files {
                entries - files
            } else {
                files - entries
            },
        }
    }

    /// By how much the two counts differ.
    pub fn difference(&self) -> (d: usize)
        ensures
            d == self.spec_difference(),
    {
        match self {
            Reconciliation::Complete { .. } => 0,
            Reconciliation::Mismatch { entries, files } => if *entries >= *files {
                *entries - *files
            } else {
                *files - *entries
            },
        }
    }

    /// The text that [`Reconciliation::summary`] returns.
    pub open spec fn spec_summary(self) -> Seq<char> {
        match self {
            Reconciliation::Complete { entries } => decimal_of(entries as nat)
                + " entries and as many files: everything is finished"@,
            Reconciliation::Mismatch { entries, files } => decimal_of(entries as nat)
                + " entries in total, but "@ + decimal_of(files as nat) + " files found"@,
        }
    }

    /// The line shown to the operator at the end of the run.
    pub fn summary(&self) -> (text: String)
        ensures
            text@ == self.spec_summary(),
    {
        match self {
            Reconciliation::Complete { entries } => {
                let mut text = decimal_text(*entries);
                text.append(" entries and as many files: everything is finished");
                text
            },
            Reconciliation::Mismatch { entries, files } => {
                let mut text = decimal_text(*entries);
                text.append(" entries in total, but ");
                text.append(decimal_text(*files).as_str());
                text.append(" files found");
                text
            },
        }
    }
}

/// Where a run stands.
#[derive(Debug, Clone, Copy, PartialEq, Eq, Structural)]
pub enum Phase {
    /// The download directory is being created.
    Preparing,
    /// Fetches are running.
    Fetching,
    /// Every fetch has come back; the files are being counted.
    Counting,
    /// The run is over.
    Finished(Reconciliation),
    /// The directory could not be created; nothing was fetched.
    Aborted,
}

/// What the outside world reports to the machine.
#[derive(Debug, Clone, Copy, PartialEq, Eq, Structural)]
pub enum Event {
    /// The download directory exists.
    DirectoryReady,
    /// The download directory could not be created.
    DirectoryFailed,
    /// One fetch has come back.
    FetchFinished(FetchOutcome),
    /// The download directory holds this many files.
    FilesCounted(usize),
}

/// What the machine asks of the outside world.
#[derive(Debug, Clone, Copy, PartialEq, Eq, Structural)]
pub enum Action {
    /// Start the fetches of all entries.
    StartFetches,
    /// Fetches are still running: go on waiting for them.
    AwaitFetches,
    /// Count the files in the download directory.
    CountFiles,
    /// Show the result; the run is over.
    Report(Reconciliation),
    /// Give up with this error; the run is over.
    Abort(BackupError),
    /// The event does not belong to the current phase; nothing changed.
    Ignore,
}

/// The mathematical value of an [`Orchestrator`].
pub struct RunState {
    pub phase: Phase,
    /// Number of entries to fetch.
    pub total: usize,
    /// Fetches that came back with success.
    pub succeeded: usize,
    /// Fetches that came back with failure.
    pub failed: usize,
}

impl RunState {
    /// Number of fetches that have come back.
    pub open spec fn processed(self) -> int {
        self.succeeded + self.failed
    }

    /// The states a run can be in.
    pub open spec fn well_formed(self) -> bool {
        &&& self.processed() <= self.total
        &&& match self.phase {
            Phase::Preparing | Phase::Aborted => self.processed() == 0,
            Phase::Fetching => self.processed() < self.total,
            Phase::Counting => self.processed() == self.total,
            Phase::Finished(outcome) => self.processed() == self.total && exists|files: usize|
                outcome == reconciliation_of(self.total, files),
        }
    }

    /// The state in which a run over `total` entries begins.
    pub open spec fn initial(total: usize) -> RunState {
        RunState { phase: Phase::Preparing, total, succeeded: 0, failed: 0 }
    }

    /// The state with one more fetch counted.
    pub open spec fn counting(self, outcome: FetchOutcome) -> RunState
        recommends
            self.processed() < self.total,
    {
        let counted = match outcome {
            FetchOutcome::Succeeded => RunState {
                succeeded: (self.succeeded + 1) as usize,
                ..self
            },
            FetchOutcome::Failed => RunState { failed: (self.failed + 1) as usize, ..self },
        };
        if counted.processed() == self.total {
            RunState { phase: Phase::Counting, ..counted }
        } else {
            counted
        }
    }

    /// The state after `event`. An event that does not belong to the
    /// current phase leaves the state as it is.
    pub open spec fn after(self, event: Event) -> RunState {
        match (self.phase, event) {
            (Phase::Preparing, Event::DirectoryReady) => if self.total == 0 {
                RunState { phase: Phase::Counting, ..self }
            } else {
                RunState { phase: Phase::Fetching, ..self }
            },
            (Phase::Preparing, Event::DirectoryFailed) => RunState {
                phase: Phase::Aborted,
                ..self
            },
            (Phase::Fetching, Event::FetchFinished(outcome)) => self.counting(outcome),
            (Phase::Counting, Event::FilesCounted(files)) => RunState {
                phase: Phase::Finished(reconciliation_of(self.total, files)),
                ..self
            },
            _ => self,
        }
    }

    /// What the outside world is asked to do when `event` arrives in this
    /// state.
    pub open spec fn action_on(self, event: Event) -> Action {
        match (self.phase, event) {
            (Phase::Preparing, Event::DirectoryReady) => if self.total == 0 {
                Action::CountFiles
            } else {
                Action::StartFetches
            },
            (Phase::Preparing, Event::DirectoryFailed) => Action::Abort(
                BackupError::DirectoryError,
            ),
            (Phase::Fetching, Event::FetchFinished(outcome)) => if self.counting(
                outcome,
            ).phase == Phase::Counting {
                Action::CountFiles
            } else {
                Action::AwaitFetches
            },
            (Phase::Counting, Event::FilesCounted(files)) => Action::Report(
                reconciliation_of(self.total, files),
            ),
            _ => Action::Ignore,
        }
    }

    /// The state after a sequence of events, taken in order.
    pub open spec fn after_all(self, events: Seq<Event>) -> RunState
        decreases events.len(),
    {
        if events.len() == 0 {
            self
        } else {
            self.after_all(events.drop_last()).after(events.last())
        }
    }
}

/// The run over a fixed number of entries.
pub struct Orchestrator {
    phase: Phase,
    total: usize,
    succeeded: usize,
    failed: usize,
}

impl View for Orchestrator {
    type V = RunState;

    closed spec fn view(&self) -> RunState {
        RunState {
            phase: self.phase,
            total: self.total,
            succeeded: self.succeeded,
            failed: self.failed,
        }
    }
}

impl Orchestrator {
    #[verifier::type_invariant]
    spec fn consistent(self) -> bool {
        self@.well_formed()
    }

    /// A run over `total` entries, before the download directory is there.
    pub fn new(total: usize) -> (run: Orchestrator)
        ensures
            run@ == RunState::initial(total),
            run@.well_formed(),
    {
        Orchestrator { phase: Phase::Preparing, total, succeeded: 0, failed: 0 }
    }

    /// Where the run stands.
    pub fn phase(&self) -> (phase: Phase)
        ensures
            phase == self@.phase,
    {
        self.phase
    }

    /// Number of entries to fetch.
    pub fn total(&self) -> (total: usize)
        ensures
            total == self@.total,
    {
        self.total
    }

    /// Number of fetches that have come back: the progress of the run.
    pub fn processed(&self) -> (count: usize)
        ensures
            count == self@.processed(),
            count <= self@.total,
    {
        proof {
            use_type_invariant(self);
        }
        self.succeeded + self.failed
    }

    /// Number of fetches that came back with failure.
    pub fn failed(&self) -> (count: usize)
        ensures
            count == self@.failed,
    {
        self.failed
    }

    /// Takes an event and says what to do next.
    pub fn step(&mut self, event: Event) -> (action: Action)
        ensures
            old(self)@.well_formed(),
            final(self)@ == old(self)@.after(event),
            action == old(self)@.action_on(event),
            final(self)@.well_formed(),
    {
        proof {
            use_type_invariant(&*self);
        }
        match (self.phase, event) {
            (Phase::Preparing, Event::DirectoryReady) => {
                if self.total == 0 {
                    self.phase = Phase::Counting;
                    Action::CountFiles
                } else {
                    self.phase = Phase::Fetching;
                    Action::StartFetches
                }
            },
            (Phase::Preparing, Event::DirectoryFailed) => {
                self.phase = Phase::Aborted;
                Action::Abort(BackupError::DirectoryError)
            },
            (Phase::Fetching, Event::FetchFinished(outcome)) => {
                let (succeeded, failed) = match outcome {
                    FetchOutcome::Succeeded => (self.succeeded + 1, self.failed),
                    FetchOutcome::Failed => (self.succeeded, self.failed + 1),
                };
                let done = succeeded + failed == self.total;
                let phase = if done {
                    Phase::Counting
                } else {
                    Phase::Fetching
                };
                *self = Orchestrator { phase, total: self.total, succeeded, failed };
                if done {
                    Action::CountFiles
                } else {
                    Action::AwaitFetches
                }
            },
            (Phase::Counting, Event::FilesCounted(files)) => {
                let outcome = reconcile(self.total, files);
                self.phase = Phase::Finished(outcome);
                Action::Report(outcome)
            },
            _ => Action::Ignore,
        }
    }
}

/// No event leads out of the states a run can be in.
pub proof fn lemma_after_keeps_well_formed(state: RunState, event: Event)
    requires
        state.well_formed(),
    ensures
        state.after(event).well_formed(),
        state.after(event).total == state.total,
{
}

/// Progress never decreases and never exceeds the number of entries,
/// whatever events arrive; an event adds at most one to it.
pub proof fn lemma_progress_is_monotone(state: RunState, event: Event)
    requires
        state.well_formed(),
    ensures
        state.processed() <= state.after(event).processed() <= state.total,
        state.after(event).processed() <= state.processed() + 1,
{
}

/// The same over any sequence of events.
pub proof fn lemma_progress_is_monotone_over(state: RunState, events: Seq<Event>)
    requires
        state.well_formed(),
    ensures
        state.after_all(events).well_formed(),
        state.after_all(events).total == state.total,
        state.processed() <= state.after_all(events).processed() <= state.total,
    decreases events.len(),
{
    if events.len() > 0 {
        lemma_progress_is_monotone_over(state, events.drop_last());
        lemma_progress_is_monotone(state.after_all(events.drop_last()), events.last());
    }
}

/// Once the directory is there, `n` fetches that come back, with whatever
/// outcomes, bring the progress to exactly `n`; when the last of them has
/// come back the run goes on to count the files.
pub proof fn lemma_every_fetch_counts(total: usize, outcomes: Seq<FetchOutcome>)
    requires
        outcomes.len() <= total,
    ensures
        ({
            let events = Seq::new(outcomes.len(), |i: int| Event::FetchFinished(outcomes[i]));
            let end = RunState::initial(total).after(Event::DirectoryReady).after_all(events);
            &&& end.processed() == outcomes.len()
            &&& end.total == total
            &&& end.phase == if outcomes.len() == total {
                Phase::Counting
            } else {
                Phase::Fetching
            }
        }),
    decreases outcomes.len(),
{
    let start = RunState::initial(total).after(Event::DirectoryReady);
    let events = Seq::new(outcomes.len(), |i: int| Event::FetchFinished(outcomes[i]));
    if outcomes.len() > 0 {
        let front = outcomes.drop_last();
        lemma_every_fetch_counts(total, front);
        let front_events = Seq::new(front.len(), |i: int| Event::FetchFinished(front[i]));
        assert(events.drop_last() =~= front_events);
        assert(events.last() == Event::FetchFinished(outcomes.last()));
    }
}

/// The order of a run: fetches are started only by the news that the
/// directory is there, files are counted only when every fetch has come
/// back, and the report is made only after the files were counted.
pub proof fn lemma_order_of_a_run(state: RunState, event: Event)
    requires
        state.well_formed(),
    ensures
        state.action_on(event) == Action::StartFetches ==> state.phase == Phase::Preparing
            && event == Event::DirectoryReady,
        state.action_on(event) == Action::CountFiles ==> state.after(event).processed()
            == state.total,
        state.action_on(event) is Report ==> state.phase == Phase::Counting && state.processed()
            == state.total && event is FilesCounted,
        state.phase == Phase::Aborted || state.phase is Finished ==> state.after(event) == state
            && state.action_on(event) == Action::Ignore,
{
}

} // verus!
