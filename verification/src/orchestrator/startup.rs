//! The stages of the core program, and how it ends.

use crate::orchestrator::error::{CoreError, CoreErrorView};
use crate::orchestrator::error;
use vstd::prelude::*;

verus! {

/// A stage of the program, in the order in which they come.
#[derive(Clone, Copy, Debug, PartialEq, Eq, Structural)]
pub enum Stage {
    LoadConfiguration,
    DockerClient,
    FindDefinitions,
    CreateNetworks,
    CreateVolumes,
    StartContainers,
    InitDatabase,
    RunThreads,
}

/// What the program has to do next.
pub enum MainAction {
    /// Do the work of a stage.
    Perform(Stage),
    /// Ask everybody to shut down, and wait until the containers are stopped.
    /// The startup ended with the given error, or without one.
    WindDown { failure: Option<CoreError> },
    /// End the program.
    Exit(Result<(), CoreError>),
}

/// The contents of a `MainAction`.
#[verifier::ext_equal]
pub enum MainActionView {
    Perform(Stage),
    WindDown { failure: Option<CoreErrorView> },
    Exit(Option<CoreErrorView>),
}

/// The contents of an optional error.
pub open spec fn failure_view(failure: Option<CoreError>) -> Option<CoreErrorView> {
    match failure {
        Some(error) => Some(error@),
        None => None,
    }
}

impl View for MainAction {
    type V = MainActionView;

    open spec fn view(&self) -> MainActionView {
        match self {
            MainAction::Perform(stage) => MainActionView::Perform(*stage),
            MainAction::WindDown { failure } => MainActionView::WindDown {
                failure: failure_view(*failure),
            },
            MainAction::Exit(result) => MainActionView::Exit(error::outcome(*result)),
        }
    }
}

/// What happened to the work of the last action.
pub enum MainEvent {
    /// The stage ended.
    Finished(Result<(), CoreError>),
    /// The shutdown came before the stage ended.
    Shutdown,
    /// The containers are stopped. The failure of the startup comes back.
    WoundDown { failure: Option<CoreError> },
}

/// The contents of a `MainEvent`.
#[verifier::ext_equal]
pub enum MainEventView {
    Finished(Option<CoreErrorView>),
    Shutdown,
    WoundDown { failure: Option<CoreErrorView> },
}

impl View for MainEvent {
    type V = MainEventView;

    open spec fn view(&self) -> MainEventView {
        match self {
            MainEvent::Finished(result) => MainEventView::Finished(error::outcome(*result)),
            MainEvent::Shutdown => MainEventView::Shutdown,
            MainEvent::WoundDown { failure } => MainEventView::WoundDown {
                failure: failure_view(*failure),
            },
        }
    }
}

/// The stage that follows a stage, where there is one.
pub open spec fn stage_after(stage: Stage) -> Option<Stage> {
    match stage {
        Stage::LoadConfiguration => Some(Stage::DockerClient),
        Stage::DockerClient => Some(Stage::FindDefinitions),
        Stage::FindDefinitions => Some(Stage::CreateNetworks),
        Stage::CreateNetworks => Some(Stage::CreateVolumes),
        Stage::CreateVolumes => Some(Stage::StartContainers),
        Stage::StartContainers => Some(Stage::InitDatabase),
        Stage::InitDatabase => Some(Stage::RunThreads),
        Stage::RunThreads => None,
    }
}

/// Whether an event can follow an action. Only the database is given up when
/// the shutdown comes.
pub open spec fn main_fits(action: MainActionView, event: MainEventView) -> bool {
    match (action, event) {
        (MainActionView::Perform(_), MainEventView::Finished(_)) => true,
        (MainActionView::Perform(stage), MainEventView::Shutdown) => stage == Stage::InitDatabase,
        (
            MainActionView::WindDown { failure },
            MainEventView::WoundDown { failure: given_back },
        ) => failure == given_back,
        _ => false,
    }
}

/// What follows an action when an event comes. Without a configuration there is
/// nothing to wind down; otherwise the program winds down whatever the startup
/// did, and ends as the startup ended.
pub open spec fn main_next(action: MainActionView, event: MainEventView) -> MainActionView {
    match (action, event) {
        (
            MainActionView::Perform(Stage::LoadConfiguration),
            MainEventView::Finished(Some(error)),
        ) => MainActionView::Exit(Some(error)),
        (MainActionView::Perform(_), MainEventView::Finished(Some(error))) => {
            MainActionView::WindDown { failure: Some(error) }
        },
        (MainActionView::Perform(stage), MainEventView::Finished(None)) => match stage_after(stage) {
            Some(next) => MainActionView::Perform(next),
            None => MainActionView::WindDown { failure: None },
        },
        (MainActionView::Perform(_), _) => MainActionView::WindDown { failure: None },
        (_, MainEventView::WoundDown { failure }) => MainActionView::Exit(failure),
        _ => MainActionView::Exit(None),
    }
}

/// The first action of the program.
pub fn main_begin() -> (action: MainAction)
    ensures
        action@ == MainActionView::Perform(Stage::LoadConfiguration),
{
    MainAction::Perform(Stage::LoadConfiguration)
}

/// What follows the stage that the program performed.
pub fn stage_ended(stage: Stage, event: MainEvent) -> (action: MainAction)
    requires
        main_fits(MainActionView::Perform(stage), event@),
    ensures
        action@ == main_next(MainActionView::Perform(stage), event@),
{
    match event {
        MainEvent::Finished(Err(error)) => match stage {
            Stage::LoadConfiguration => MainAction::Exit(Err(error)),
            _ => MainAction::WindDown { failure: Some(error) },
        },
        MainEvent::Finished(Ok(_)) => match stage {
            Stage::LoadConfiguration => MainAction::Perform(Stage::DockerClient),
            Stage::DockerClient => MainAction::Perform(Stage::FindDefinitions),
            Stage::FindDefinitions => MainAction::Perform(Stage::CreateNetworks),
            Stage::CreateNetworks => MainAction::Perform(Stage::CreateVolumes),
            Stage::CreateVolumes => MainAction::Perform(Stage::StartContainers),
            Stage::StartContainers => MainAction::Perform(Stage::InitDatabase),
            Stage::InitDatabase => MainAction::Perform(Stage::RunThreads),
            Stage::RunThreads => MainAction::WindDown { failure: None },
        },
        _ => MainAction::WindDown { failure: None },
    }
}

/// How the program ends once it has wound down.
pub fn wound_down(failure: Option<CoreError>) -> (action: MainAction)
    ensures
        action@ == main_next(
            (MainActionView::WindDown { failure: failure_view(failure) }),
            (MainEventView::WoundDown { failure: failure_view(failure) }),
        ),
{
    match failure {
        Some(error) => MainAction::Exit(Err(error)),
        None => MainAction::Exit(Ok(())),
    }
}

/// The action after a history of events.
pub open spec fn main_after(events: Seq<MainEventView>) -> MainActionView
    decreases events.len(),
{
    if events.len() == 0 {
        MainActionView::Perform(Stage::LoadConfiguration)
    } else {
        main_next(main_after(events.drop_last()), events.last())
    }
}

/// Whether a history of events can happen to the program.
pub open spec fn main_possible(events: Seq<MainEventView>) -> bool
    decreases events.len(),
{
    events.len() > 0 ==> main_possible(events.drop_last()) && main_fits(
        main_after(events.drop_last()),
        events.last(),
    )
}

proof fn lemma_shape(events: Seq<MainEventView>)
    requires
        main_possible(events),
    ensures
        main_after(events) matches MainActionView::Perform(Stage::LoadConfiguration)
            ==> events.len() == 0,
        main_after(events) matches MainActionView::Exit(result) ==> {
            ||| events.len() == 1 && events[0] == MainEventView::Finished(result) && result is Some
            ||| events.len() > 1 && main_after(events.drop_last()) == (MainActionView::WindDown {
                failure: result,
            })
        },
    decreases events.len(),
{
    if events.len() > 0 {
        lemma_shape(events.drop_last());
        let before = main_after(events.drop_last());
        if before == MainActionView::Perform(Stage::LoadConfiguration) {
            assert(events.drop_last().len() == 0);
        }
        if events.len() == 1 {
            assert(events.drop_last().len() == 0);
            assert(main_after(events.drop_last()) == MainActionView::Perform(
                Stage::LoadConfiguration,
            ));
        }
    }
}

/// Once the configuration is loaded, the program does not end before it has
/// asked for the shutdown and waited for the containers, and it ends as its
/// startup ended.
pub proof fn program_winds_down_before_it_ends(
    events: Seq<MainEventView>,
    result: Option<CoreErrorView>,
)
    requires
        main_possible(events),
        main_after(events) == MainActionView::Exit(result),
        events[0] == MainEventView::Finished(None),
    ensures
        events.len() > 1,
        main_after(events.drop_last()) == (MainActionView::WindDown { failure: result }),
{
    lemma_shape(events);
}

/// The stages follow each other: the configuration, the daemon, the definitions,
/// the networks, the volumes, the containers, the database and the threads.
pub proof fn stages_follow_each_other()
    ensures
        ({
            let stages = seq![
                Stage::LoadConfiguration,
                Stage::DockerClient,
                Stage::FindDefinitions,
                Stage::CreateNetworks,
                Stage::CreateVolumes,
                Stage::StartContainers,
                Stage::InitDatabase,
                Stage::RunThreads,
            ];
            &&& forall|i: int|
                0 <= i < 7 ==> main_next(
                    MainActionView::Perform(#[trigger] stages[i]),
                    MainEventView::Finished(None),
                ) == MainActionView::Perform(stages[i + 1])
            &&& main_next(
                MainActionView::Perform(Stage::RunThreads),
                MainEventView::Finished(None),
            ) == (MainActionView::WindDown { failure: None })
        }),
{
}

/// A failure winds the program down, and is what it exits with; only without a
/// configuration there is nothing to wind down. A shutdown that comes first is no
/// failure.
pub proof fn failures_wind_the_program_down(
    stage: Stage,
    error: CoreErrorView,
    failure: Option<CoreErrorView>,
)
    ensures
        stage != Stage::LoadConfiguration ==> main_next(
            MainActionView::Perform(stage),
            MainEventView::Finished(Some(error)),
        ) == (MainActionView::WindDown { failure: Some(error) }),
        stage == Stage::LoadConfiguration ==> main_next(
            MainActionView::Perform(stage),
            MainEventView::Finished(Some(error)),
        ) == MainActionView::Exit(Some(error)),
        main_next(MainActionView::Perform(stage), MainEventView::Shutdown)
            == (MainActionView::WindDown { failure: None }),
        main_next(MainActionView::WindDown { failure }, MainEventView::WoundDown { failure })
            == MainActionView::Exit(failure),
{
}

/// What happened is told as it happened: a stage that failed by its error, and the
/// failure that is kept through the winding down by the same.
pub proof fn failures_are_kept(failure: Option<CoreError>, result: Result<(), CoreError>)
    ensures
        failure_view(failure) is Some <==> failure is Some,
        failure matches Some(error) ==> failure_view(failure) == Some(error@),
        result matches Err(error) ==> MainEvent::Finished(result)@ == MainEventView::Finished(
            Some(error@),
        ) && MainAction::Exit(result)@ == MainActionView::Exit(Some(error@)),
        result is Ok ==> MainEvent::Finished(result)@ == MainEventView::Finished(None)
            && MainAction::Exit(result)@ == MainActionView::Exit(None),
{
}

} // verus!
