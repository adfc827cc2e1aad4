//! The boot of one container.

use crate::docker::container::{plan_container, ContainerPlan};
use crate::docker::container;
use crate::docker::definitions::{DockerErrorView, DockerModuleError, ServiceConfig};
use crate::docker::inspect::{
    check_launched, Inspection, InspectionView, Verdict, VerdictView, DEPENDENCY_WAIT_MAX_ATTEMPTS,
};
use crate::docker::inspect;
use crate::docker::volumes::resolve_pull_tag;
use crate::docker::volumes;
use crate::text;
use vstd::prelude::*;

verus! {

/// Why a call to the daemon failed. A refusal by the daemon carries its status
/// code, any other failure none.
pub struct CallError {
    pub status: Option<u16>,
    pub message: String,
}

/// The contents of a `CallError`.
#[verifier::ext_equal]
pub struct CallErrorView {
    pub status: Option<u16>,
    pub message: Seq<char>,
}

impl View for CallError {
    type V = CallErrorView;

    open spec fn view(&self) -> CallErrorView {
        CallErrorView { status: self.status, message: self.message@ }
    }
}

/// What a call to the daemon returned.
pub type Reply = Result<(), CallError>;

/// The contents of a reply.
pub type ReplyView = Result<(), CallErrorView>;

/// The contents of a reply.
pub open spec fn replied(reply: Reply) -> ReplyView {
    match reply {
        Ok(_) => Ok(()),
        Err(error) => Err(error@),
    }
}

/// Whether the daemon refused because the thing is already there.
pub open spec fn is_conflict(error: CallErrorView) -> bool {
    error.status == Some(409u16)
}

/// How far the boot of a service has come.
#[derive(Clone, Copy, PartialEq, Eq, Debug, Structural)]
pub enum BootPhase {
    Pull,
    Create,
    Start,
    Inspect { attempt: u32 },
    Sleep { attempt: u32 },
    Done,
}

/// What happened.
pub enum BootEvent {
    /// The image was pulled to the end, or the pull broke off.
    Pulled(Result<(), String>),
    Created(Reply),
    Started(Reply),
    Inspected(Inspection),
    Slept,
}

/// The contents of a `BootEvent`.
#[verifier::ext_equal]
pub enum BootEventView {
    Pulled(Result<(), Seq<char>>),
    Created(ReplyView),
    Started(ReplyView),
    Inspected(InspectionView),
    Slept,
}

impl View for BootEvent {
    type V = BootEventView;

    open spec fn view(&self) -> BootEventView {
        match self {
            BootEvent::Pulled(Ok(_)) => BootEventView::Pulled(Ok(())),
            BootEvent::Pulled(Err(error)) => BootEventView::Pulled(Err(error@)),
            BootEvent::Created(reply) => BootEventView::Created(replied(*reply)),
            BootEvent::Started(reply) => BootEventView::Started(replied(*reply)),
            BootEvent::Inspected(reply) => BootEventView::Inspected(inspect::inspected(*reply)),
            BootEvent::Slept => BootEventView::Slept,
        }
    }
}

/// What is to be done next.
pub enum BootAction {
    PullImage { image: String, tag: Option<String> },
    CreateContainer,
    StartContainer,
    InspectContainer,
    /// Let the poll interval pass.
    Sleep,
    Finish(Result<(), DockerModuleError>),
}

/// The contents of a `BootAction`.
#[verifier::ext_equal]
pub enum BootActionView {
    PullImage { image: Seq<char>, tag: Option<Seq<char>> },
    CreateContainer,
    StartContainer,
    InspectContainer,
    Sleep,
    Finish(Result<(), DockerErrorView>),
}

impl View for BootAction {
    type V = BootActionView;

    open spec fn view(&self) -> BootActionView {
        match self {
            BootAction::PullImage { image, tag } => {
                BootActionView::PullImage { image: image@, tag: text::opt_text(*tag) }
            },
            BootAction::CreateContainer => BootActionView::CreateContainer,
            BootAction::StartContainer => BootActionView::StartContainer,
            BootAction::InspectContainer => BootActionView::InspectContainer,
            BootAction::Sleep => BootActionView::Sleep,
            BootAction::Finish(Ok(_)) => BootActionView::Finish(Ok(())),
            BootAction::Finish(Err(error)) => BootActionView::Finish(Err(error@)),
        }
    }
}

/// Whether an event can follow what was to be done in a phase.
pub open spec fn fits(phase: BootPhase, event: BootEventView) -> bool {
    match phase {
        BootPhase::Pull => event is Pulled,
        BootPhase::Create => event is Created,
        BootPhase::Start => event is Started,
        BootPhase::Inspect { attempt } => event is Inspected && attempt
            < DEPENDENCY_WAIT_MAX_ATTEMPTS,
        BootPhase::Sleep { attempt } => event is Slept && attempt < DEPENDENCY_WAIT_MAX_ATTEMPTS,
        BootPhase::Done => false,
    }
}

/// Where a boot begins: with the image, where there is one to pull.
pub open spec fn boot_start(image: Option<Seq<char>>) -> (BootPhase, BootActionView) {
    match image {
        Some(name) => (
            BootPhase::Pull,
            BootActionView::PullImage { image: name, tag: volumes::pull_tag(name) },
        ),
        None => (BootPhase::Create, BootActionView::CreateContainer),
    }
}

/// A failed boot.
pub open spec fn boot_failed(error: DockerErrorView) -> (BootPhase, BootActionView) {
    (BootPhase::Done, BootActionView::Finish(Err(error)))
}

/// A boot that came through.
pub open spec fn boot_done() -> (BootPhase, BootActionView) {
    (BootPhase::Done, BootActionView::Finish(Ok(())))
}

/// How a boot goes on. A container that exists already is taken as it is, and
/// one that was started is inspected until it is launched, for as long as the
/// attempts last.
pub open spec fn boot_next(phase: BootPhase, service_name: Seq<char>, event: BootEventView) -> (
    BootPhase,
    BootActionView,
)
    recommends
        fits(phase, event),
{
    match event {
        BootEventView::Pulled(Ok(_)) => (BootPhase::Create, BootActionView::CreateContainer),
        BootEventView::Pulled(Err(message)) => boot_failed(DockerErrorView::Bollard(message)),
        BootEventView::Created(reply) => match reply {
            Err(error) => if is_conflict(error) {
                (BootPhase::Start, BootActionView::StartContainer)
            } else {
                boot_failed(DockerErrorView::Bollard(error.message))
            },
            Ok(_) => (BootPhase::Start, BootActionView::StartContainer),
        },
        BootEventView::Started(reply) => match reply {
            Ok(_) => (BootPhase::Inspect { attempt: 0 }, BootActionView::InspectContainer),
            Err(error) => if is_conflict(error) {
                boot_done()
            } else {
                boot_failed(DockerErrorView::Bollard(error.message))
            },
        },
        BootEventView::Inspected(reply) => match inspect::launch_verdict(reply) {
            VerdictView::Ready => boot_done(),
            VerdictView::Failed(message) => boot_failed(DockerErrorView::Bollard(message)),
            VerdictView::Pending => (
                BootPhase::Sleep { attempt: phase->Inspect_attempt },
                BootActionView::Sleep,
            ),
        },
        BootEventView::Slept => if phase->Sleep_attempt + 1 < DEPENDENCY_WAIT_MAX_ATTEMPTS {
            (
                BootPhase::Inspect { attempt: (phase->Sleep_attempt + 1) as u32 },
                BootActionView::InspectContainer,
            )
        } else {
            boot_failed(DockerErrorView::ServiceStartTimeout(service_name))
        },
    }
}

/// The boot of one service.
pub struct Boot {
    pub plan: ContainerPlan,
    pub phase: BootPhase,
}

impl Boot {
    /// Plans the container of a service and begins its boot.
    pub fn begin(service_name: &str, config: &ServiceConfig) -> (begun: (Boot, BootAction))
        ensures
            container::plans(begun.0.plan, service_name@, *config),
            (begun.0.phase, begun.1@) == boot_start(text::opt_text(config.image)),
    {
        let plan = plan_container(service_name, config);
        match &config.image {
            Some(image) => {
                let action = BootAction::PullImage {
                    image: image.clone(),
                    tag: resolve_pull_tag(image),
                };
                (Boot { plan, phase: BootPhase::Pull }, action)
            },
            None => (Boot { plan, phase: BootPhase::Create }, BootAction::CreateContainer),
        }
    }

    fn fail(&mut self, error: DockerModuleError) -> (action: BootAction)
        ensures
            final(self).plan == old(self).plan,
            (final(self).phase, action@) == boot_failed(error@),
    {
        self.phase = BootPhase::Done;
        BootAction::Finish(Err(error))
    }

    fn succeed(&mut self) -> (action: BootAction)
        ensures
            final(self).plan == old(self).plan,
            (final(self).phase, action@) == boot_done(),
    {
        self.phase = BootPhase::Done;
        BootAction::Finish(Ok(()))
    }

    /// Takes what happened and says what is to be done next.
    pub fn step(&mut self, event: BootEvent) -> (action: BootAction)
        requires
            fits(old(self).phase, event@),
        ensures
            final(self).plan == old(self).plan,
            (final(self).phase, action@) == boot_next(
                old(self).phase,
                old(self).plan.name@,
                event@,
            ),
    {
        match event {
            BootEvent::Pulled(Ok(_)) => {
                self.phase = BootPhase::Create;
                BootAction::CreateContainer
            },
            BootEvent::Pulled(Err(message)) => self.fail(DockerModuleError::Bollard(message)),
            BootEvent::Created(Err(error)) => {
                if matches!(error.status, Some(409)) {
                    self.phase = BootPhase::Start;
                    BootAction::StartContainer
                } else {
                    self.fail(DockerModuleError::Bollard(error.message))
                }
            },
            BootEvent::Created(Ok(_)) => {
                self.phase = BootPhase::Start;
                BootAction::StartContainer
            },
            BootEvent::Started(Ok(_)) => {
                self.phase = BootPhase::Inspect { attempt: 0 };
                BootAction::InspectContainer
            },
            BootEvent::Started(Err(error)) => {
                if matches!(error.status, Some(409)) {
                    self.succeed()
                } else {
                    self.fail(DockerModuleError::Bollard(error.message))
                }
            },
            BootEvent::Inspected(reply) => match check_launched(&reply) {
                Verdict::Ready => self.succeed(),
                Verdict::Failed(message) => self.fail(DockerModuleError::Bollard(message)),
                Verdict::Pending => {
                    if let BootPhase::Inspect { attempt } = self.phase {
                        self.phase = BootPhase::Sleep { attempt };
                    }
                    BootAction::Sleep
                },
            },
            BootEvent::Slept => {
                if let BootPhase::Sleep { attempt } = self.phase {
                    if attempt + 1 < DEPENDENCY_WAIT_MAX_ATTEMPTS {
                        self.phase = BootPhase::Inspect { attempt: attempt + 1 };
                        return BootAction::InspectContainer;
                    }
                }
                let name = self.plan.name.clone();
                self.fail(DockerModuleError::ServiceStartTimeout(name))
            },
        }
    }
}

// ---------------------------------------------------------------------------
// Laws of the boot
// ---------------------------------------------------------------------------

/// How many steps a boot has left at most.
pub open spec fn steps_left(phase: BootPhase) -> int {
    match phase {
        BootPhase::Pull => 2 * DEPENDENCY_WAIT_MAX_ATTEMPTS + 3,
        BootPhase::Create => 2 * DEPENDENCY_WAIT_MAX_ATTEMPTS + 2,
        BootPhase::Start => 2 * DEPENDENCY_WAIT_MAX_ATTEMPTS + 1,
        BootPhase::Inspect { attempt } => 2 * (DEPENDENCY_WAIT_MAX_ATTEMPTS - attempt),
        BootPhase::Sleep { attempt } => 2 * (DEPENDENCY_WAIT_MAX_ATTEMPTS - attempt) - 1,
        BootPhase::Done => 0,
    }
}

/// A boot cannot hang: every event brings it closer to its end, and it ends with
/// a result.
pub proof fn boot_comes_to_an_end(
    phase: BootPhase,
    service_name: Seq<char>,
    event: BootEventView,
)
    requires
        fits(phase, event),
    ensures
        0 <= steps_left(boot_next(phase, service_name, event).0) < steps_left(phase),
        boot_next(phase, service_name, event).0 is Done <==> boot_next(
            phase,
            service_name,
            event,
        ).1 is Finish,
{
}

/// A boot succeeds exactly where the daemon says that the container runs
/// already, or where an inspection shows it launched.
pub proof fn boot_succeeds_only_when_launched(
    phase: BootPhase,
    service_name: Seq<char>,
    event: BootEventView,
)
    requires
        fits(phase, event),
    ensures
        boot_next(phase, service_name, event).1 == BootActionView::Finish(Ok(())) <==> match event {
            BootEventView::Started(Err(error)) => is_conflict(error),
            BootEventView::Inspected(reply) => inspect::launch_verdict(reply) is Ready,
            _ => false,
        },
{
}

/// The phase and the action after a number of inspections that all left the
/// launch open, each followed by a sleep.
pub open spec fn after_pending(service_name: Seq<char>, replies: Seq<InspectionView>) -> (
    BootPhase,
    BootActionView,
)
    decreases replies.len(),
{
    if replies.len() == 0 {
        (BootPhase::Inspect { attempt: 0 }, BootActionView::InspectContainer)
    } else {
        let before = after_pending(service_name, replies.drop_last()).0;
        let asleep = boot_next(
            before,
            service_name,
            BootEventView::Inspected(replies.last()),
        ).0;
        boot_next(asleep, service_name, BootEventView::Slept)
    }
}

/// A container that is never seen launched is given up after the last attempt
/// and not before: each earlier attempt is followed by another one.
pub proof fn launch_is_awaited_for_all_attempts(
    service_name: Seq<char>,
    replies: Seq<InspectionView>,
)
    requires
        replies.len() <= DEPENDENCY_WAIT_MAX_ATTEMPTS,
        forall|i: int|
            0 <= i < replies.len() ==> inspect::launch_verdict(#[trigger] replies[i]) is Pending,
    ensures
        after_pending(service_name, replies) == (if replies.len() < DEPENDENCY_WAIT_MAX_ATTEMPTS {
            (
                BootPhase::Inspect { attempt: replies.len() as u32 },
                BootActionView::InspectContainer,
            )
        } else {
            boot_failed(DockerErrorView::ServiceStartTimeout(service_name))
        }),
    decreases replies.len(),
{
    if replies.len() > 0 {
        let init = replies.drop_last();
        assert forall|i: int| 0 <= i < init.len() implies inspect::launch_verdict(
            #[trigger] init[i],
        ) is Pending by {
            assert(init[i] == replies[i]);
        }
        launch_is_awaited_for_all_attempts(service_name, init);
        assert(inspect::launch_verdict(replies[replies.len() - 1]) is Pending);
    }
}

/// A container is made from its image: the image is pulled first, under its own
/// reference, then the container is created, then started, then awaited. A
/// service without an image begins with its container.
pub proof fn boot_goes_step_by_step(image: Seq<char>, service_name: Seq<char>)
    ensures
        boot_start(Some(image)).1 matches BootActionView::PullImage { image: pulled, tag } && pulled
            == image && (tag matches Some(text) ==> text == "latest"@),
        boot_start(None).1 is CreateContainer,
        boot_next(BootPhase::Pull, service_name, BootEventView::Pulled(Ok(()))) == (
            BootPhase::Create,
            BootActionView::CreateContainer,
        ),
        boot_next(BootPhase::Create, service_name, BootEventView::Created(Ok(()))) == (
            BootPhase::Start,
            BootActionView::StartContainer,
        ),
        boot_next(BootPhase::Start, service_name, BootEventView::Started(Ok(()))) == (
            BootPhase::Inspect { attempt: 0 },
            BootActionView::InspectContainer,
        ),
{
}

/// A refusal stops the boot with the words of the daemon, but for the status
/// 409: a container that is there is started, and one that was started counts as
/// booted.
pub proof fn only_a_conflict_is_passed_over(
    phase: BootPhase,
    service_name: Seq<char>,
    error: CallErrorView,
    message: Seq<char>,
)
    ensures
        boot_next(phase, service_name, BootEventView::Pulled(Err(message))).1
            == BootActionView::Finish(Err(DockerErrorView::Bollard(message))),
        boot_next(phase, service_name, BootEventView::Created(Err(error))).1 == (if error.status
            == Some(409u16) {
            BootActionView::StartContainer
        } else {
            BootActionView::Finish(Err(DockerErrorView::Bollard(error.message)))
        }),
        boot_next(phase, service_name, BootEventView::Started(Err(error))).1 == (if error.status
            == Some(409u16) {
            BootActionView::Finish(Ok(()))
        } else {
            BootActionView::Finish(Err(DockerErrorView::Bollard(error.message)))
        }),
{
}

/// A started container is awaited until it runs or has ended, for 120
/// inspections; then the boot fails in the name of the service.
pub proof fn started_container_is_awaited(
    service_name: Seq<char>,
    attempt: u32,
    state: inspect::ContainerState,
    message: Seq<char>,
)
    requires
        attempt < 120,
    ensures
        boot_next(
            BootPhase::Inspect { attempt },
            service_name,
            BootEventView::Inspected(Ok(Some(state))),
        ).1 == (if state.running == Some(true) || state.status == Some(
            inspect::ContainerStatus::Exited,
        ) || state.status == Some(inspect::ContainerStatus::Dead) {
            BootActionView::Finish(Ok(()))
        } else {
            BootActionView::Sleep
        }),
        boot_next(
            BootPhase::Inspect { attempt },
            service_name,
            BootEventView::Inspected(Err(message)),
        ).1 == BootActionView::Finish(Err(DockerErrorView::Bollard(message))),
        boot_next(BootPhase::Sleep { attempt }, service_name, BootEventView::Slept).1 == (
        if attempt + 1 < 120 {
            BootActionView::InspectContainer
        } else {
            BootActionView::Finish(Err(DockerErrorView::ServiceStartTimeout(service_name)))
        }),
{
}

/// A reply of the daemon is told as it came: a refusal by its status and its words.
pub proof fn replies_are_told_as_they_came(error: CallError)
    ensures
        replied(Ok(())) is Ok,
        replied(Err(error)) == Err::<(), CallErrorView>(
            CallErrorView { status: error.status, message: error.message@ },
        ),
{
}

} // verus!
