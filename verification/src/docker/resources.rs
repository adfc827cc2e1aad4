//! The creation of networks and volumes, and the removal of containers.

use crate::docker::boot::{CallErrorView, Reply, ReplyView};
use crate::docker::boot;
use crate::docker::definitions::{DockerErrorView, DockerModuleError, NetworkConfig, VolumeConfig};
use crate::text;
use vstd::prelude::*;

verus! {

/// A network or a volume to create.
pub struct CreateRequest {
    pub name: String,
    pub driver: Option<String>,
}

/// The contents of a `CreateRequest`.
#[verifier::ext_equal]
pub struct CreateRequestView {
    pub name: Seq<char>,
    pub driver: Option<Seq<char>>,
}

impl View for CreateRequest {
    type V = CreateRequestView;

    open spec fn view(&self) -> CreateRequestView {
        CreateRequestView { name: self.name@, driver: text::opt_text(self.driver) }
    }
}

/// The contents of a list of requests.
pub open spec fn request_views(requests: Seq<CreateRequest>) -> Seq<CreateRequestView> {
    Seq::new(requests.len(), |i: int| requests[i]@)
}

/// The networks that definitions ask for.
pub open spec fn wanted_networks(networks: Seq<(String, Option<NetworkConfig>)>) -> Seq<
    CreateRequestView,
> {
    Seq::new(
        networks.len(),
        |i: int|
            CreateRequestView {
                name: networks[i].0@,
                driver: match networks[i].1 {
                    Some(config) => text::opt_text(config.driver),
                    None => None,
                },
            },
    )
}

/// The volumes that definitions ask for.
pub open spec fn wanted_volumes(volumes: Seq<(String, Option<VolumeConfig>)>) -> Seq<
    CreateRequestView,
> {
    Seq::new(
        volumes.len(),
        |i: int|
            CreateRequestView {
                name: volumes[i].0@,
                driver: match volumes[i].1 {
                    Some(config) => text::opt_text(config.driver),
                    None => None,
                },
            },
    )
}

/// Which refusals of the daemon do not stop the creation.
#[derive(Clone, Copy, PartialEq, Eq, Debug, Structural)]
pub enum Tolerance {
    /// Any refusal: only a daemon that cannot be reached stops it.
    AnyRefusal,
    /// Only that the thing is already there.
    Conflict,
}

/// Whether a failure does not stop the creation.
pub open spec fn tolerated(tolerance: Tolerance, error: CallErrorView) -> bool {
    match tolerance {
        Tolerance::AnyRefusal => error.status is Some,
        Tolerance::Conflict => boot::is_conflict(error),
    }
}

/// What the creation has to do next.
pub enum CreationAction {
    Create { index: usize },
    Finish(Result<(), DockerModuleError>),
}

/// The contents of a `CreationAction`.
#[verifier::ext_equal]
pub enum CreationActionView {
    Create { index: usize },
    Finish(Result<(), DockerErrorView>),
}

impl View for CreationAction {
    type V = CreationActionView;

    open spec fn view(&self) -> CreationActionView {
        match self {
            CreationAction::Create { index } => CreationActionView::Create { index: *index },
            CreationAction::Finish(Ok(_)) => CreationActionView::Finish(Ok(())),
            CreationAction::Finish(Err(error)) => CreationActionView::Finish(Err(error@)),
        }
    }
}

/// Creates the request at `index`, or finishes where there is none.
pub open spec fn create_at(count: int, index: int) -> CreationActionView {
    if index < count {
        CreationActionView::Create { index: index as usize }
    } else {
        CreationActionView::Finish(Ok(()))
    }
}

/// How the creation goes on after the reply to the request at `index`.
pub open spec fn creation_next(
    tolerance: Tolerance,
    count: int,
    index: int,
    reply: ReplyView,
) -> CreationActionView {
    match reply {
        Err(error) => if tolerated(tolerance, error) {
            create_at(count, index + 1)
        } else {
            CreationActionView::Finish(Err(DockerErrorView::Bollard(error.message)))
        },
        Ok(_) => create_at(count, index + 1),
    }
}

/// The creation of networks or volumes, one after the other.
pub struct Creation {
    pub requests: Vec<CreateRequest>,
    pub tolerance: Tolerance,
    /// The request that is under way.
    pub index: usize,
}

impl Creation {
    fn create_or_finish(&self) -> (action: CreationAction)
        ensures
            action@ == create_at(self.requests@.len() as int, self.index as int),
    {
        if self.index < self.requests.len() {
            CreationAction::Create { index: self.index }
        } else {
            CreationAction::Finish(Ok(()))
        }
    }

    /// Takes the reply to the request under way and says what is to be done
    /// next.
    pub fn step(&mut self, reply: Reply) -> (action: CreationAction)
        requires
            old(self).index < old(self).requests@.len(),
        ensures
            final(self).requests == old(self).requests,
            final(self).tolerance == old(self).tolerance,
            final(self).index == old(self).index + 1,
            action@ == creation_next(
                old(self).tolerance,
                old(self).requests@.len() as int,
                old(self).index as int,
                boot::replied(reply),
            ),
    {
        let room: usize = self.requests.len();
        self.index = self.index + 1;
        match reply {
            Ok(_) => self.create_or_finish(),
            Err(error) => {
                let goes_on = match self.tolerance {
                    Tolerance::AnyRefusal => error.status.is_some(),
                    Tolerance::Conflict => matches!(error.status, Some(409)),
                };
                if goes_on {
                    self.create_or_finish()
                } else {
                    CreationAction::Finish(Err(DockerModuleError::Bollard(error.message)))
                }
            },
        }
    }
}

/// Begins the creation of the networks. A network that the daemon refuses, for
/// whatever reason, is passed over.
pub fn create_docker_networks(docker_networks: Vec<(String, Option<NetworkConfig>)>) -> (begun: (
    Creation,
    CreationAction,
))
    ensures
        request_views(begun.0.requests@) == wanted_networks(docker_networks@),
        begun.0.tolerance == Tolerance::AnyRefusal,
        begun.0.index == 0,
        begun.1@ == create_at(docker_networks@.len() as int, 0),
{
    let ghost wanted = wanted_networks(docker_networks@);
    let ghost all = docker_networks@;
    let mut requests: Vec<CreateRequest> = Vec::new();
    for network in it: docker_networks.into_iter()
        invariant
            it.seq() == all,
            wanted == wanted_networks(all),
            requests@.len() == it.index(),
            forall|j: int| 0 <= j < it.index() ==> (#[trigger] requests@[j])@ == wanted[j],
    {
        let (name, config) = network;
        let driver = match config {
            Some(config) => config.driver,
            None => None,
        };
        requests.push(CreateRequest { name, driver });
    }
    assert(request_views(requests@) =~= wanted);
    let creation = Creation { requests, tolerance: Tolerance::AnyRefusal, index: 0 };
    let action = creation.create_or_finish();
    (creation, action)
}

/// Begins the creation of the volumes. A volume that is already there is taken
/// as it is.
pub fn create_docker_volumes(docker_volumes: Vec<(String, Option<VolumeConfig>)>) -> (begun: (
    Creation,
    CreationAction,
))
    ensures
        request_views(begun.0.requests@) == wanted_volumes(docker_volumes@),
        begun.0.tolerance == Tolerance::Conflict,
        begun.0.index == 0,
        begun.1@ == create_at(docker_volumes@.len() as int, 0),
{
    let ghost wanted = wanted_volumes(docker_volumes@);
    let ghost all = docker_volumes@;
    let mut requests: Vec<CreateRequest> = Vec::new();
    for volume in it: docker_volumes.into_iter()
        invariant
            it.seq() == all,
            wanted == wanted_volumes(all),
            requests@.len() == it.index(),
            forall|j: int| 0 <= j < it.index() ==> (#[trigger] requests@[j])@ == wanted[j],
    {
        let (name, config) = volume;
        let driver = match config {
            Some(config) => config.driver,
            None => None,
        };
        requests.push(CreateRequest { name, driver });
    }
    assert(request_views(requests@) =~= wanted);
    let creation = Creation { requests, tolerance: Tolerance::Conflict, index: 0 };
    let action = creation.create_or_finish();
    (creation, action)
}

/// What is to be done after the replies to the first requests.
pub open spec fn creation_after(tolerance: Tolerance, count: int, replies: Seq<ReplyView>) ->
    CreationActionView
    decreases replies.len(),
{
    if replies.len() == 0 {
        create_at(count, 0)
    } else {
        match creation_after(tolerance, count, replies.drop_last()) {
            CreationActionView::Create { index } => creation_next(
                tolerance,
                count,
                index as int,
                replies.last(),
            ),
            finished => finished,
        }
    }
}

/// Whether a reply lets the creation go on.
pub open spec fn goes_on(tolerance: Tolerance, reply: ReplyView) -> bool {
    reply matches Err(error) ==> tolerated(tolerance, error)
}

/// Creation is a matter of all or the first failure: while every reply lets it
/// go on, the next request follows, and it succeeds after the last one; the
/// first reply that does not is the result.
pub proof fn creation_stops_at_the_first_failure(
    tolerance: Tolerance,
    count: int,
    replies: Seq<ReplyView>,
)
    requires
        0 <= count <= usize::MAX,
        replies.len() <= count,
    ensures
        (forall|i: int| 0 <= i < replies.len() ==> goes_on(tolerance, #[trigger] replies[i]))
            ==> creation_after(tolerance, count, replies) == create_at(
            count,
            replies.len() as int,
        ),
        forall|k: int|
            #![trigger replies[k]]
            0 <= k < replies.len() && !goes_on(tolerance, replies[k]) && (forall|i: int|
                0 <= i < k ==> goes_on(tolerance, #[trigger] replies[i])) ==> creation_after(
                tolerance,
                count,
                replies,
            ) == CreationActionView::Finish(
                Err(DockerErrorView::Bollard(replies[k]->Err_0.message)),
            ),
    decreases replies.len(),
{
    if replies.len() > 0 {
        let init = replies.drop_last();
        creation_stops_at_the_first_failure(tolerance, count, init);
        let last = replies.len() - 1;
        if forall|i: int| 0 <= i < replies.len() ==> goes_on(tolerance, #[trigger] replies[i]) {
            assert forall|i: int| 0 <= i < init.len() implies goes_on(
                tolerance,
                #[trigger] init[i],
            ) by {
                assert(init[i] == replies[i]);
            }
            assert(goes_on(tolerance, replies[last]));
        }
        assert forall|k: int|
            #![trigger replies[k]]
            0 <= k < replies.len() && !goes_on(tolerance, replies[k]) && (forall|i: int|
                0 <= i < k ==> goes_on(tolerance, #[trigger] replies[i])) implies creation_after(
            tolerance,
            count,
            replies,
        ) == CreationActionView::Finish(
            Err(DockerErrorView::Bollard(replies[k]->Err_0.message)),
        ) by {
            assert forall|i: int| 0 <= i < k implies goes_on(tolerance, #[trigger] init[i]) by {
                assert(init[i] == replies[i]);
            }
            if k < last {
                assert(init[k] == replies[k]);
            } else {
                assert(creation_after(tolerance, count, init) == create_at(
                    count,
                    init.len() as int,
                ));
            }
        }
    }
}

/// How far the end of a container has come.
#[derive(Clone, Copy, PartialEq, Eq, Debug, Structural)]
pub enum CleanupPhase {
    Inspect,
    Stop,
    Remove,
    Done,
}

/// What is to be done next to end a container.
#[derive(Clone, Copy, PartialEq, Eq, Debug, Structural)]
pub enum CleanupAction {
    InspectContainer,
    /// Send SIGTERM and give the container the grace period.
    StopContainer,
    /// Remove the container, by force.
    RemoveContainer,
    Finish,
}

/// The signal that a container is stopped with.
pub fn stop_signal() -> (signal: String)
    ensures
        signal@ == "SIGTERM"@,
{
    "SIGTERM".to_owned()
}

/// How many seconds a container has to stop.
pub const STOP_GRACE_SECS: i32 = 10;

/// How the end of a container goes on, given whether the last call succeeded. A
/// container that cannot be inspected was never created; one that cannot be
/// stopped is left alone; one that was stopped is removed where that is wanted.
pub open spec fn cleanup_next(phase: CleanupPhase, succeeded: bool, remove: bool) -> (
    CleanupPhase,
    CleanupAction,
) {
    if phase == CleanupPhase::Inspect && succeeded {
        (CleanupPhase::Stop, CleanupAction::StopContainer)
    } else if phase == CleanupPhase::Stop && succeeded && remove {
        (CleanupPhase::Remove, CleanupAction::RemoveContainer)
    } else {
        (CleanupPhase::Done, CleanupAction::Finish)
    }
}

/// Takes whether the last call succeeded and says what is to be done next to
/// stop a container and clean up after it.
pub fn stop_and_cleanup_container(
    phase: CleanupPhase,
    succeeded: bool,
    remove_containers_on_shutdown: bool,
) -> (next: (CleanupPhase, CleanupAction))
    ensures
        next == cleanup_next(phase, succeeded, remove_containers_on_shutdown),
{
    match phase {
        CleanupPhase::Inspect if succeeded => (CleanupPhase::Stop, CleanupAction::StopContainer),
        CleanupPhase::Stop if succeeded && remove_containers_on_shutdown => (
            CleanupPhase::Remove,
            CleanupAction::RemoveContainer,
        ),
        _ => (CleanupPhase::Done, CleanupAction::Finish),
    }
}

/// A container is removed only after it was stopped, and only where that is
/// wanted.
pub proof fn containers_are_removed_only_on_demand(
    phase: CleanupPhase,
    succeeded: bool,
    remove: bool,
)
    ensures
        cleanup_next(phase, succeeded, remove).1 == CleanupAction::RemoveContainer <==> phase
            == CleanupPhase::Stop && succeeded && remove,
{
}

/// Every network and every volume is asked for under its own name and with its
/// own driver, in order; without a configuration there is no driver.
pub proof fn resources_are_asked_for_as_declared(
    networks: Seq<(String, Option<NetworkConfig>)>,
    volumes: Seq<(String, Option<VolumeConfig>)>,
    i: int,
)
    ensures
        wanted_networks(networks).len() == networks.len(),
        wanted_volumes(volumes).len() == volumes.len(),
        0 <= i < networks.len() ==> {
            &&& wanted_networks(networks)[i].name == networks[i].0@
            &&& networks[i].1 is None ==> wanted_networks(networks)[i].driver is None
            &&& networks[i].1 matches Some(config) ==> match config.driver {
                Some(driver) => wanted_networks(networks)[i].driver == Some(driver@),
                None => wanted_networks(networks)[i].driver is None,
            }
        },
        0 <= i < volumes.len() ==> {
            &&& wanted_volumes(volumes)[i].name == volumes[i].0@
            &&& volumes[i].1 is None ==> wanted_volumes(volumes)[i].driver is None
            &&& volumes[i].1 matches Some(config) ==> match config.driver {
                Some(driver) => wanted_volumes(volumes)[i].driver == Some(driver@),
                None => wanted_volumes(volumes)[i].driver is None,
            }
        },
{
}

/// A network that the daemon refuses with any status is passed over, a volume
/// only with the status 409; every other failure stops with the words of the
/// daemon. After the last one the creation ends well.
pub proof fn refusals_are_passed_over(count: int, index: int, error: CallErrorView)
    requires
        0 <= index < count <= usize::MAX,
    ensures
        ({
            let on = if index + 1 < count {
                CreationActionView::Create { index: (index + 1) as usize }
            } else {
                CreationActionView::Finish(Ok(()))
            };
            let stop = CreationActionView::Finish(Err(DockerErrorView::Bollard(error.message)));
            &&& creation_next(Tolerance::AnyRefusal, count, index, Ok(())) == on
            &&& creation_next(Tolerance::Conflict, count, index, Ok(())) == on
            &&& creation_next(Tolerance::AnyRefusal, count, index, Err(error)) == (
            if error.status is Some {
                on
            } else {
                stop
            })
            &&& creation_next(Tolerance::Conflict, count, index, Err(error)) == (if error.status
                == Some(409u16) {
                on
            } else {
                stop
            })
        }),
{
}

/// A container that is there is stopped, with ten seconds of grace; one that is
/// not there is left alone.
pub proof fn containers_are_stopped_where_they_are(remove: bool)
    ensures
        cleanup_next(CleanupPhase::Inspect, true, remove) == (
            CleanupPhase::Stop,
            CleanupAction::StopContainer,
        ),
        cleanup_next(CleanupPhase::Inspect, false, remove).1 == CleanupAction::Finish,
        cleanup_next(CleanupPhase::Stop, false, remove).1 == CleanupAction::Finish,
        cleanup_next(CleanupPhase::Remove, true, remove).1 == CleanupAction::Finish,
        cleanup_next(CleanupPhase::Remove, false, remove).1 == CleanupAction::Finish,
        STOP_GRACE_SECS == 10,
{
}

} // verus!
