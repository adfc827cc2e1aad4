//! What an interrupt asks for.

use vstd::prelude::*;

verus! {

/// The exit code of a forced exit.
pub const FORCED_EXIT_CODE: i32 = 130;

/// Which Ctrl+C is waited for.
#[derive(Clone, Copy, Debug, PartialEq, Eq, Structural)]
pub enum SignalStage {
    First,
    Second,
}

/// What an awaited Ctrl+C leads to.
#[derive(Clone, Copy, Debug, PartialEq, Eq, Structural)]
pub enum SignalAction {
    /// Ask everybody to shut down, and wait for the second one.
    Shutdown,
    /// Wait for the second one.
    WaitAgain,
    /// Leave the process at once.
    Exit { code: i32 },
    /// Stop waiting.
    Stop,
}

/// What to do when the wait for a Ctrl+C ended; `received` tells whether one
/// came or it could not be waited for. The first asks for a graceful shutdown,
/// the second forces the exit.
pub fn signal_action(stage: SignalStage, received: bool) -> (action: SignalAction)
    ensures
        action == (match (stage, received) {
            (SignalStage::First, true) => SignalAction::Shutdown,
            (SignalStage::First, false) => SignalAction::WaitAgain,
            (SignalStage::Second, true) => (SignalAction::Exit { code: FORCED_EXIT_CODE }),
            (SignalStage::Second, false) => SignalAction::Stop,
        }),
{
    match (stage, received) {
        (SignalStage::First, true) => SignalAction::Shutdown,
        (SignalStage::First, false) => SignalAction::WaitAgain,
        (SignalStage::Second, true) => SignalAction::Exit { code: FORCED_EXIT_CODE },
        (SignalStage::Second, false) => SignalAction::Stop,
    }
}

/// A forced exit is told by the code of an interrupted program.
pub proof fn forced_exit_looks_interrupted()
    ensures
        FORCED_EXIT_CODE == 128 + 2,
{
}

} // verus!
