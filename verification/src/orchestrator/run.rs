//! The tasks that run until the shutdown.

use crate::orchestrator::error::{CoreError, CoreErrorView};
use crate::orchestrator::error;
use crate::orchestrator::startup;
use vstd::prelude::*;

verus! {

/// The tasks of the run phase: the web server and the message broker.
pub const RUN_TASKS: usize = 2;

/// The result of a task, where a task that could not be joined has failed too.
pub fn flatten_task_result(join_result: Result<Result<(), CoreError>, String>) -> (result: Result<
    (),
    CoreError,
>)
    ensures
        error::outcome(result) == (match join_result {
            Ok(inner) => error::outcome(inner),
            Err(text) => Some(CoreErrorView::Join(text@)),
        }),
{
    match join_result {
        Ok(inner) => inner,
        Err(text) => Err(CoreError::Join(text)),
    }
}

/// What the run phase has to do next.
pub enum RunAction {
    /// Wait for a task to end.
    AwaitTask,
    /// Ask the other tasks to shut down, and wait for one to end.
    ShutdownAndAwait,
    /// End the run phase.
    Finish(Result<(), CoreError>),
}

/// The contents of a `RunAction`.
#[verifier::ext_equal]
pub enum RunActionView {
    AwaitTask,
    ShutdownAndAwait,
    Finish(Option<CoreErrorView>),
}

impl View for RunAction {
    type V = RunActionView;

    open spec fn view(&self) -> RunActionView {
        match self {
            RunAction::AwaitTask => RunActionView::AwaitTask,
            RunAction::ShutdownAndAwait => RunActionView::ShutdownAndAwait,
            RunAction::Finish(result) => RunActionView::Finish(error::outcome(*result)),
        }
    }
}

/// The run phase: how many tasks have ended, and the first error among them.
pub struct RunPhase {
    pub ended: usize,
    pub first_error: Option<CoreError>,
}

/// The contents of a `RunPhase`.
#[verifier::ext_equal]
pub struct RunPhaseView {
    pub ended: int,
    pub first_error: Option<CoreErrorView>,
}

impl View for RunPhase {
    type V = RunPhaseView;

    open spec fn view(&self) -> RunPhaseView {
        RunPhaseView { ended: self.ended as int, first_error: startup::failure_view(self.first_error) }
    }
}

/// How the run phase begins: with its tasks where the web server could be bound
/// to its port, and not at all otherwise.
pub open spec fn run_start(bound: Result<(), Seq<char>>) -> (RunPhaseView, RunActionView) {
    match bound {
        Ok(_) => (RunPhaseView { ended: 0, first_error: None }, RunActionView::AwaitTask),
        Err(error) => (
            RunPhaseView { ended: RUN_TASKS as int, first_error: None },
            RunActionView::Finish(Some(CoreErrorView::WebServer(error))),
        ),
    }
}

/// How the run phase goes on when a task ended with an error or without one. The
/// first task to end takes the others with it.
pub open spec fn run_next(state: RunPhaseView, task: Option<CoreErrorView>) -> (
    RunPhaseView,
    RunActionView,
) {
    let ended = state.ended + 1;
    let first_error = if state.first_error is Some {
        state.first_error
    } else {
        task
    };
    if ended < RUN_TASKS {
        (RunPhaseView { ended, first_error }, RunActionView::ShutdownAndAwait)
    } else {
        (RunPhaseView { ended, first_error: None }, RunActionView::Finish(first_error))
    }
}

impl RunPhase {
    /// Begins the run phase, given whether the web server could be bound.
    pub fn begin(bound: Result<(), String>) -> (begun: (RunPhase, RunAction))
        ensures
            (begun.0@, begun.1@) == run_start(
                match bound {
                    Ok(_) => Ok(()),
                    Err(error) => Err(error@),
                },
            ),
    {
        match bound {
            Ok(_) => (RunPhase { ended: 0, first_error: None }, RunAction::AwaitTask),
            Err(error) => (
                RunPhase { ended: RUN_TASKS, first_error: None },
                RunAction::Finish(Err(CoreError::WebServer(error))),
            ),
        }
    }

    /// Goes on when a task ended.
    pub fn step(&mut self, task: Result<(), CoreError>) -> (action: RunAction)
        requires
            old(self)@.ended < RUN_TASKS,
        ensures
            (final(self)@, action@) == run_next(old(self)@, error::outcome(task)),
    {
        let before = self.first_error.take();
        let first_error = match before {
            Some(error) => Some(error),
            None => match task {
                Ok(_) => None,
                Err(error) => Some(error),
            },
        };
        self.ended = self.ended + 1;
        if self.ended < RUN_TASKS {
            self.first_error = first_error;
            RunAction::ShutdownAndAwait
        } else {
            match first_error {
                Some(error) => RunAction::Finish(Err(error)),
                None => RunAction::Finish(Ok(())),
            }
        }
    }
}

/// The state and the action of a run phase after the given tasks ended.
pub open spec fn run_after(tasks: Seq<Option<CoreErrorView>>) -> (RunPhaseView, RunActionView)
    decreases tasks.len(),
{
    if tasks.len() == 0 {
        run_start(Ok(()))
    } else {
        run_next(run_after(tasks.drop_last()).0, tasks.last())
    }
}

/// The run phase asks for the shutdown as soon as one task has ended, whichever
/// it is and however it ended; it ends when all have, with the error of the
/// first one that failed.
pub proof fn first_task_to_end_ends_the_run(
    first: Option<CoreErrorView>,
    second: Option<CoreErrorView>,
)
    ensures
        run_after(seq![first]).1 == RunActionView::ShutdownAndAwait,
        run_after(seq![first, second]).1 == RunActionView::Finish(
            if first is Some {
                first
            } else {
                second
            },
        ),
{
    reveal_with_fuel(run_after, 3);
    assert(seq![first].drop_last() =~= Seq::empty());
    assert(seq![first, second].drop_last() =~= seq![first]);
}

/// A server that could not be bound ends the run before any task is started.
pub proof fn unbound_server_ends_the_run(error: Seq<char>)
    ensures
        run_start(Err(error)).1 == RunActionView::Finish(Some(CoreErrorView::WebServer(error))),
        run_start(Ok(())).1 == RunActionView::AwaitTask,
        run_start(Ok(())).0 == (RunPhaseView { ended: 0, first_error: None }),
{
}

} // verus!
