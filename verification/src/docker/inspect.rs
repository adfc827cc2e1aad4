//! What an inspection of a container says about it.

use crate::docker::definitions::DependencyCondition;
use crate::numbers::format_i64;
use crate::numbers;
use crate::text::cat2;
use vstd::prelude::*;

verus! {

/// How often a container is inspected before it is given up.
pub const DEPENDENCY_WAIT_MAX_ATTEMPTS: u32 = 120;

/// How many seconds pass between two inspections.
pub const DEPENDENCY_POLL_INTERVAL_SECS: u64 = 1;

/// What the daemon says of the life of a container.
#[derive(Clone, Copy, PartialEq, Eq, Debug, Structural)]
pub enum ContainerStatus {
    Created,
    Running,
    Paused,
    Restarting,
    Removing,
    Exited,
    Dead,
    Other,
}

/// What the daemon says of the health of a container.
#[derive(Clone, Copy, PartialEq, Eq, Debug, Structural)]
pub enum HealthStatus {
    Healthy,
    Unhealthy,
    Starting,
    Other,
}

/// The health of a container that has a health check.
#[derive(Clone, Copy, PartialEq, Eq, Debug, Structural)]
pub struct Health {
    pub status: Option<HealthStatus>,
}

/// The state of a container.
#[derive(Clone, Copy, PartialEq, Eq, Debug, Structural)]
pub struct ContainerState {
    pub status: Option<ContainerStatus>,
    pub running: Option<bool>,
    pub exit_code: Option<i64>,
    pub health: Option<Health>,
}

/// What an inspection returned: the state of the container, where the daemon
/// gave one, or why there was no answer.
pub type Inspection = Result<Option<ContainerState>, String>;

/// The contents of an inspection.
pub type InspectionView = Result<Option<ContainerState>, Seq<char>>;

/// The contents of an inspection.
pub open spec fn inspected(reply: Inspection) -> InspectionView {
    match reply {
        Ok(state) => Ok(state),
        Err(error) => Err(error@),
    }
}

/// What an inspection decides.
pub enum Verdict {
    Ready,
    Failed(String),
    Pending,
}

/// The contents of a verdict.
#[verifier::ext_equal]
pub enum VerdictView {
    Ready,
    Failed(Seq<char>),
    Pending,
}

impl View for Verdict {
    type V = VerdictView;

    open spec fn view(&self) -> VerdictView {
        match self {
            Verdict::Ready => VerdictView::Ready,
            Verdict::Failed(reason) => VerdictView::Failed(reason@),
            Verdict::Pending => VerdictView::Pending,
        }
    }
}

/// Whether a container has come to its end.
pub open spec fn is_terminal(state: ContainerState) -> bool {
    state.status == Some(ContainerStatus::Exited) || state.status == Some(ContainerStatus::Dead)
}

/// Whether a container is known to run.
pub open spec fn is_running(state: ContainerState) -> bool {
    state.running == Some(true)
}

/// Whether a container that was inspected is healthy. One without a health
/// check counts as healthy as soon as it runs.
pub open spec fn health_verdict(reply: InspectionView) -> VerdictView {
    match reply {
        Err(error) => VerdictView::Failed("could not be inspected: "@ + error),
        Ok(None) => VerdictView::Pending,
        Ok(Some(state)) => match state.health {
            Some(health) => match health.status {
                Some(HealthStatus::Healthy) => VerdictView::Ready,
                Some(HealthStatus::Unhealthy) => VerdictView::Failed("became unhealthy"@),
                _ => VerdictView::Pending,
            },
            None => if is_running(state) {
                VerdictView::Ready
            } else {
                VerdictView::Pending
            },
        },
    }
}

/// The exit code of a container, -1 where the daemon gives none.
pub open spec fn exit_code_of(state: ContainerState) -> int {
    match state.exit_code {
        Some(code) => code as int,
        None => -1,
    }
}

/// Whether a container that was inspected has done its work.
pub open spec fn completion_verdict(reply: InspectionView) -> VerdictView {
    match reply {
        Err(error) => VerdictView::Failed("could not be inspected: "@ + error),
        Ok(None) => VerdictView::Pending,
        Ok(Some(state)) => if !is_terminal(state) {
            VerdictView::Pending
        } else if exit_code_of(state) == 0 {
            VerdictView::Ready
        } else {
            VerdictView::Failed("exited with code "@ + numbers::decimal(exit_code_of(state)))
        },
    }
}

/// Whether a container that was inspected has been launched. One that came to
/// its end before it was seen to run counts too.
pub open spec fn launch_verdict(reply: InspectionView) -> VerdictView {
    match reply {
        Err(error) => VerdictView::Failed(error),
        Ok(None) => VerdictView::Pending,
        Ok(Some(state)) => if is_running(state) || is_terminal(state) {
            VerdictView::Ready
        } else {
            VerdictView::Pending
        },
    }
}

/// Whether a dependency that was inspected satisfies its condition.
pub open spec fn condition_verdict(
    condition: DependencyCondition,
    reply: InspectionView,
) -> VerdictView {
    match condition {
        DependencyCondition::ServiceStarted => VerdictView::Ready,
        DependencyCondition::ServiceHealthy => health_verdict(reply),
        DependencyCondition::ServiceCompletedSuccessfully => completion_verdict(reply),
    }
}

/// Why a dependency is given up when it never satisfied its condition.
pub open spec fn exhausted_reason(condition: DependencyCondition) -> Seq<char> {
    match condition {
        DependencyCondition::ServiceStarted => "failed to start"@,
        DependencyCondition::ServiceHealthy => "did not become healthy in time"@,
        DependencyCondition::ServiceCompletedSuccessfully => "did not complete in time"@,
    }
}

fn terminal(state: &ContainerState) -> (yes: bool)
    ensures
        yes == is_terminal(*state),
{
    matches!(state.status, Some(ContainerStatus::Exited) | Some(ContainerStatus::Dead))
}

fn running(state: &ContainerState) -> (yes: bool)
    ensures
        yes == is_running(*state),
{
    matches!(state.running, Some(true))
}

/// Decides whether a container that was inspected is healthy.
pub fn check_healthy(reply: &Inspection) -> (verdict: Verdict)
    ensures
        verdict@ == health_verdict(inspected(*reply)),
{
    match reply {
        Err(error) => Verdict::Failed(cat2("could not be inspected: ", error)),
        Ok(None) => Verdict::Pending,
        Ok(Some(state)) => match state.health {
            Some(health) => match health.status {
                Some(HealthStatus::Healthy) => Verdict::Ready,
                Some(HealthStatus::Unhealthy) => Verdict::Failed("became unhealthy".to_owned()),
                _ => Verdict::Pending,
            },
            None => if running(state) {
                Verdict::Ready
            } else {
                Verdict::Pending
            },
        },
    }
}

/// Decides whether a container that was inspected has done its work.
pub fn check_completed(reply: &Inspection) -> (verdict: Verdict)
    ensures
        verdict@ == completion_verdict(inspected(*reply)),
{
    match reply {
        Err(error) => Verdict::Failed(cat2("could not be inspected: ", error)),
        Ok(None) => Verdict::Pending,
        Ok(Some(state)) => {
            if !terminal(state) {
                Verdict::Pending
            } else {
                let code: i64 = match state.exit_code {
                    Some(code) => code,
                    None => -1,
                };
                if code == 0 {
                    Verdict::Ready
                } else {
                    Verdict::Failed(cat2("exited with code ", &format_i64(code)))
                }
            }
        },
    }
}

/// Decides whether a container that was inspected has been launched.
pub fn check_launched(reply: &Inspection) -> (verdict: Verdict)
    ensures
        verdict@ == launch_verdict(inspected(*reply)),
{
    match reply {
        Err(error) => Verdict::Failed(error.clone()),
        Ok(None) => Verdict::Pending,
        Ok(Some(state)) => if running(state) || terminal(state) {
            Verdict::Ready
        } else {
            Verdict::Pending
        },
    }
}

/// Decides whether a dependency that was inspected satisfies its condition.
pub fn check_condition(condition: DependencyCondition, reply: &Inspection) -> (verdict: Verdict)
    ensures
        verdict@ == condition_verdict(condition, inspected(*reply)),
{
    match condition {
        DependencyCondition::ServiceStarted => Verdict::Ready,
        DependencyCondition::ServiceHealthy => check_healthy(reply),
        DependencyCondition::ServiceCompletedSuccessfully => check_completed(reply),
    }
}

/// Says why a dependency is given up when it never satisfied its condition.
pub fn give_up_reason(condition: DependencyCondition) -> (reason: String)
    ensures
        reason@ == exhausted_reason(condition),
{
    match condition {
        DependencyCondition::ServiceStarted => "failed to start".to_owned(),
        DependencyCondition::ServiceHealthy => "did not become healthy in time".to_owned(),
        DependencyCondition::ServiceCompletedSuccessfully => "did not complete in time".to_owned(),
    }
}

// ---------------------------------------------------------------------------
// Laws of inspections
// ---------------------------------------------------------------------------

/// A container has completed successfully exactly where it has exited, or is
/// dead, with the exit code zero. With any other code it has failed, and the
/// code is named; without a code that is -1. Before its end nothing is decided.
pub proof fn only_a_zero_exit_is_success(reply: InspectionView)
    ensures
        completion_verdict(reply) is Ready <==> (reply matches Ok(Some(state)) && (state.status
            == Some(ContainerStatus::Exited) || state.status == Some(ContainerStatus::Dead))
            && state.exit_code == Some(0i64)),
        reply matches Ok(Some(state)) ==> (state.status == Some(ContainerStatus::Exited)
            || state.status == Some(ContainerStatus::Dead)) ==> {
            &&& forall|code: i64|
                code != 0 && state.exit_code == Some(code) ==> completion_verdict(reply)
                    == VerdictView::Failed("exited with code "@ + #[trigger] numbers::decimal(code as int))
            &&& state.exit_code is None ==> completion_verdict(reply) == VerdictView::Failed(
                "exited with code "@ + numbers::decimal(-1),
            )
        },
        completion_verdict(reply) is Pending <==> (reply matches Ok(found) && (found matches Some(
            state,
        ) ==> state.status != Some(ContainerStatus::Exited) && state.status != Some(
            ContainerStatus::Dead,
        ))),
        reply matches Err(error) ==> completion_verdict(reply) == VerdictView::Failed(
            "could not be inspected: "@ + error,
        ),
{
}

/// A container with a health check is ready exactly where it is healthy, and has
/// failed exactly where it is unhealthy; one without is ready where it runs.
pub proof fn only_health_counts_where_it_is_checked(reply: InspectionView)
    ensures
        health_verdict(reply) is Ready <==> (reply matches Ok(Some(state)) && match state.health {
            Some(health) => health.status == Some(HealthStatus::Healthy),
            None => state.running == Some(true),
        }),
        health_verdict(reply) is Failed <==> (reply matches Ok(found) ==> (found matches Some(
            state,
        ) && state.health matches Some(health) && health.status == Some(HealthStatus::Unhealthy))),
        reply is Ok && health_verdict(reply) is Failed ==> health_verdict(reply)
            == VerdictView::Failed("became unhealthy"@),
        reply matches Err(error) ==> health_verdict(reply) == VerdictView::Failed(
            "could not be inspected: "@ + error,
        ),
{
}

/// A container is launched exactly where it runs or has already come to its end;
/// only an inspection without an answer fails, with what the daemon said.
pub proof fn launched_containers_run_or_ran(reply: InspectionView)
    ensures
        launch_verdict(reply) is Ready <==> (reply matches Ok(Some(state)) && (state.running
            == Some(true) || state.status == Some(ContainerStatus::Exited) || state.status == Some(
            ContainerStatus::Dead,
        ))),
        launch_verdict(reply) is Failed <==> reply is Err,
        reply matches Err(error) ==> launch_verdict(reply) == VerdictView::Failed(error),
{
}

/// Each condition asks for its own thing: a started dependency for nothing more,
/// a healthy one for health, a completed one for success. The reason to give up
/// in the end says which.
pub proof fn conditions_ask_for_their_own_thing(reply: InspectionView)
    ensures
        condition_verdict(DependencyCondition::ServiceStarted, reply) is Ready,
        condition_verdict(DependencyCondition::ServiceHealthy, reply) == health_verdict(reply),
        condition_verdict(DependencyCondition::ServiceCompletedSuccessfully, reply)
            == completion_verdict(reply),
        exhausted_reason(DependencyCondition::ServiceStarted) == "failed to start"@,
        exhausted_reason(DependencyCondition::ServiceHealthy) == "did not become healthy in time"@,
        exhausted_reason(DependencyCondition::ServiceCompletedSuccessfully)
            == "did not complete in time"@,
        DEPENDENCY_WAIT_MAX_ATTEMPTS == 120,
        DEPENDENCY_POLL_INTERVAL_SECS == 1,
{
}

/// An inspection is told as it came: the state that was found, or the error.
pub proof fn inspections_are_told_as_they_came(found: Option<ContainerState>, error: String)
    ensures
        inspected(Ok(found)) == Ok::<Option<ContainerState>, Seq<char>>(found),
        inspected(Err(error)) == Err::<Option<ContainerState>, Seq<char>>(error@),
{
}

} // verus!
