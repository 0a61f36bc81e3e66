use vstd::prelude::*;

verus! {

/// The stages of a submission run, in the order they are taken.
#[derive(Clone, Copy, Debug, PartialEq, Eq, Structural)]
pub enum Stage {
    LoadConfig,
    AcquireScratch,
    GeneratePatches,
    AnnotateSubject,
    Dispatch,
}

/// Where a run stands.
#[derive(Clone, Copy, Debug, PartialEq, Eq, Structural)]
pub enum RunState {
    /// The stage is to be performed next.
    Working(Stage),
    /// The series was mailed.
    Done,
    /// No settings existed; defaults were written for the user to edit.
    SetupWritten,
    /// No commit lies after the baseline: there is nothing to send.
    NothingToSubmit,
    /// The stage failed; nothing after it was performed.
    Failed(Stage),
}

/// What performing a stage came to.
#[derive(Clone, Copy, Debug, PartialEq, Eq, Structural)]
pub enum Event {
    /// The stage did its work.
    Completed,
    /// Loading found no settings and wrote the defaults.
    ConfigCreated,
    /// The commit count was zero.
    NoCommits,
    /// The stage failed.
    Failure,
}

pub open spec fn is_terminal(s: RunState) -> bool {
    !(s is Working)
}

/// The stage after `st` in a run that goes well, if any.
pub open spec fn following(st: Stage) -> RunState {
    match st {
        Stage::LoadConfig => RunState::Working(Stage::AcquireScratch),
        Stage::AcquireScratch => RunState::Working(Stage::GeneratePatches),
        Stage::GeneratePatches => RunState::Working(Stage::AnnotateSubject),
        Stage::AnnotateSubject => RunState::Working(Stage::Dispatch),
        Stage::Dispatch => RunState::Done,
    }
}

/// One transition: a finished run stays as it is; a failure ends the run
/// in that stage; the two early exits are taken only from the stage that
/// can signal them; any other event leaves the state unchanged.
pub open spec fn step(s: RunState, e: Event) -> RunState {
    match s {
        RunState::Working(st) => match e {
            Event::Completed => following(st),
            Event::Failure => RunState::Failed(st),
            Event::ConfigCreated => if st == Stage::LoadConfig {
                RunState::SetupWritten
            } else {
                s
            },
            Event::NoCommits => if st == Stage::GeneratePatches {
                RunState::NothingToSubmit
            } else {
                s
            },
        },
        _ => s,
    }
}

/// The state after a sequence of events.
pub open spec fn run(s: RunState, events: Seq<Event>) -> RunState
    decreases events.len(),
{
    if events.len() == 0 {
        s
    } else {
        run(step(s, events[0]), events.drop_first())
    }
}

/// The process status of a finished run: success for a mailed series and for
/// nothing to submit, 2 after writing default settings, 1 after a failure.
pub open spec fn status_of(s: RunState) -> Option<i32> {
    match s {
        RunState::Working(_) => None,
        RunState::Done => Some(0),
        RunState::NothingToSubmit => Some(0),
        RunState::SetupWritten => Some(2),
        RunState::Failed(_) => Some(1),
    }
}

impl RunState {
    /// The state in which every run starts.
    pub fn start() -> (r: RunState)
        ensures
            r == RunState::Working(Stage::LoadConfig),
    {
        RunState::Working(Stage::LoadConfig)
    }

    /// The state after `e` happened in this one.
    pub fn next(self, e: Event) -> (r: RunState)
        ensures
            r == step(self, e),
    {
        match self {
            RunState::Working(st) => match e {
                Event::Completed => match st {
                    Stage::LoadConfig => RunState::Working(Stage::AcquireScratch),
                    Stage::AcquireScratch => RunState::Working(Stage::GeneratePatches),
                    Stage::GeneratePatches => RunState::Working(Stage::AnnotateSubject),
                    Stage::AnnotateSubject => RunState::Working(Stage::Dispatch),
                    Stage::Dispatch => RunState::Done,
                },
                Event::Failure => RunState::Failed(st),
                Event::ConfigCreated => match st {
                    Stage::LoadConfig => RunState::SetupWritten,
                    _ => self,
                },
                Event::NoCommits => match st {
                    Stage::GeneratePatches => RunState::NothingToSubmit,
                    _ => self,
                },
            },
            _ => self,
        }
    }

    /// The exit status once the run has finished; `None` while it goes on.
    pub fn exit_status(&self) -> (r: Option<i32>)
        ensures
            r == status_of(*self),
    {
        match self {
            RunState::Working(_) => None,
            RunState::Done => Some(0),
            RunState::NothingToSubmit => Some(0),
            RunState::SetupWritten => Some(2),
            RunState::Failed(_) => Some(1),
        }
    }
}

/// A finished run stays finished, whatever happens after.
pub proof fn lemma_terminal_is_final(s: RunState, events: Seq<Event>)
    requires
        is_terminal(s),
    ensures
        run(s, events) == s,
    decreases events.len(),
{
    if events.len() > 0 {
        lemma_terminal_is_final(s, events.drop_first());
    }
}

/// A zero commit count ends the run with success, and the mailing stage is
/// never reached after it.
pub proof fn lemma_no_commits_never_dispatch(events: Seq<Event>)
    ensures
        step(RunState::Working(Stage::GeneratePatches), Event::NoCommits)
            == RunState::NothingToSubmit,
        status_of(RunState::NothingToSubmit) == Some(0i32),
        run(RunState::NothingToSubmit, events) != RunState::Working(Stage::Dispatch),
{
    lemma_terminal_is_final(RunState::NothingToSubmit, events);
}

/// A failure while tagging the first patch ends the run with a failure
/// status, and the mailing stage is never reached after it.
pub proof fn lemma_annotation_failure_never_dispatch(events: Seq<Event>)
    ensures
        step(RunState::Working(Stage::AnnotateSubject), Event::Failure) == RunState::Failed(
            Stage::AnnotateSubject,
        ),
        status_of(RunState::Failed(Stage::AnnotateSubject)) == Some(1i32),
        run(RunState::Failed(Stage::AnnotateSubject), events) != RunState::Working(Stage::Dispatch),
{
    lemma_terminal_is_final(RunState::Failed(Stage::AnnotateSubject), events);
}

/// The mailing stage is entered only from a completed tagging stage.
pub proof fn lemma_dispatch_follows_annotation(s: RunState, e: Event)
    requires
        step(s, e) == RunState::Working(Stage::Dispatch),
        s != RunState::Working(Stage::Dispatch),
    ensures
        s == RunState::Working(Stage::AnnotateSubject),
        e == Event::Completed,
{
}

} // verus!
