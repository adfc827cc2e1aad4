//! The tasks of the services: their dependencies, their boot and their end.

use crate::docker::definitions::{
    DependencyCondition, DockerErrorView, DockerModuleError, ServiceConfig,
};
use crate::docker::graph::validate_dependency_graph;
use crate::docker::graph;
use crate::docker::inspect::{
    check_condition, give_up_reason, Inspection, InspectionView, Verdict, VerdictView,
    DEPENDENCY_WAIT_MAX_ATTEMPTS,
};
use crate::docker::inspect;
use crate::text::same;
use vstd::prelude::*;

verus! {

/// What a service task tells its dependents.
#[derive(Clone, Copy, PartialEq, Eq, Debug, Structural)]
pub enum ServiceStatus {
    Pending,
    Started,
}

/// How far a service task has come.
#[derive(Clone, Copy, PartialEq, Eq, Debug, Structural)]
pub enum TaskPhase {
    /// Waits until a dependency is started.
    Await { dependency: usize },
    /// Inspects a started dependency for its condition.
    Inspect { dependency: usize, attempt: u32 },
    /// Lets time pass before the next inspection.
    Sleep { dependency: usize, attempt: u32 },
    Boot,
    /// Waits for the other services.
    Barrier,
    /// Waits for the shutdown.
    Run,
    /// Stops its container.
    Stop,
    End,
}

/// What happened to a service task.
pub enum TaskEvent {
    DependencyStarted,
    /// The task of the dependency ended without starting it.
    DependencyLost,
    Inspected(Inspection),
    Slept,
    BootFinished(Result<(), DockerModuleError>),
    BarrierPassed,
    Shutdown,
    Stopped,
}

/// The contents of a `TaskEvent`.
#[verifier::ext_equal]
pub enum TaskEventView {
    DependencyStarted,
    DependencyLost,
    Inspected(InspectionView),
    Slept,
    BootFinished(Result<(), DockerErrorView>),
    BarrierPassed,
    Shutdown,
    Stopped,
}

impl View for TaskEvent {
    type V = TaskEventView;

    open spec fn view(&self) -> TaskEventView {
        match self {
            TaskEvent::DependencyStarted => TaskEventView::DependencyStarted,
            TaskEvent::DependencyLost => TaskEventView::DependencyLost,
            TaskEvent::Inspected(reply) => TaskEventView::Inspected(inspect::inspected(*reply)),
            TaskEvent::Slept => TaskEventView::Slept,
            TaskEvent::BootFinished(Ok(_)) => TaskEventView::BootFinished(Ok(())),
            TaskEvent::BootFinished(Err(error)) => TaskEventView::BootFinished(Err(error@)),
            TaskEvent::BarrierPassed => TaskEventView::BarrierPassed,
            TaskEvent::Shutdown => TaskEventView::Shutdown,
            TaskEvent::Stopped => TaskEventView::Stopped,
        }
    }
}

/// What a service task has to do next.
pub enum TaskAction {
    AwaitDependency { name: String },
    InspectDependency { name: String },
    /// Let the poll interval pass.
    Sleep,
    BootService,
    /// Tell the dependents that the service is started, then wait for the
    /// others.
    PublishStarted,
    AwaitShutdown,
    StopContainer,
    /// Say that the service does not start because of a dependency, and end.
    GiveUp { dependency: String, reason: String },
    /// Hand the error of the boot to the startup, and end.
    ReportFailure(DockerModuleError),
    Finish,
}

/// The contents of a `TaskAction`.
#[verifier::ext_equal]
pub enum TaskActionView {
    AwaitDependency { name: Seq<char> },
    InspectDependency { name: Seq<char> },
    Sleep,
    BootService,
    PublishStarted,
    AwaitShutdown,
    StopContainer,
    GiveUp { dependency: Seq<char>, reason: Seq<char> },
    ReportFailure(DockerErrorView),
    Finish,
}

impl View for TaskAction {
    type V = TaskActionView;

    open spec fn view(&self) -> TaskActionView {
        match self {
            TaskAction::AwaitDependency { name } => {
                TaskActionView::AwaitDependency { name: name@ }
            },
            TaskAction::InspectDependency { name } => {
                TaskActionView::InspectDependency { name: name@ }
            },
            TaskAction::Sleep => TaskActionView::Sleep,
            TaskAction::BootService => TaskActionView::BootService,
            TaskAction::PublishStarted => TaskActionView::PublishStarted,
            TaskAction::AwaitShutdown => TaskActionView::AwaitShutdown,
            TaskAction::StopContainer => TaskActionView::StopContainer,
            TaskAction::GiveUp { dependency, reason } => {
                TaskActionView::GiveUp { dependency: dependency@, reason: reason@ }
            },
            TaskAction::ReportFailure(error) => TaskActionView::ReportFailure(error@),
            TaskAction::Finish => TaskActionView::Finish,
        }
    }
}

/// The dependencies of a service, each with its condition.
pub type Dependencies = Seq<(Seq<char>, DependencyCondition)>;

/// Whether an event can happen in a phase.
pub open spec fn fits(dependencies: Dependencies, phase: TaskPhase, event: TaskEventView) -> bool {
    match phase {
        TaskPhase::Await { dependency } => dependency < dependencies.len() && (
        event is DependencyStarted || event is DependencyLost || event is Shutdown),
        TaskPhase::Inspect { dependency, attempt } => dependency < dependencies.len() && attempt
            < DEPENDENCY_WAIT_MAX_ATTEMPTS && (event is Inspected || event is Shutdown),
        TaskPhase::Sleep { dependency, attempt } => dependency < dependencies.len() && attempt
            < DEPENDENCY_WAIT_MAX_ATTEMPTS && (event is Slept || event is Shutdown),
        TaskPhase::Boot => event is BootFinished || event is Shutdown,
        TaskPhase::Barrier => event is BarrierPassed || event is Shutdown,
        TaskPhase::Run => event is Shutdown,
        TaskPhase::Stop => event is Stopped,
        TaskPhase::End => false,
    }
}

/// Turns to a dependency, or to the boot where there is none left.
pub open spec fn turn_to(dependencies: Dependencies, dependency: int) -> (
    TaskPhase,
    TaskActionView,
) {
    if dependency < dependencies.len() {
        (
            TaskPhase::Await { dependency: dependency as usize },
            TaskActionView::AwaitDependency { name: dependencies[dependency].0 },
        )
    } else {
        (TaskPhase::Boot, TaskActionView::BootService)
    }
}

/// Ends because of a dependency.
pub open spec fn gives_up(dependencies: Dependencies, dependency: int, reason: Seq<char>) -> (
    TaskPhase,
    TaskActionView,
) {
    (
        TaskPhase::End,
        TaskActionView::GiveUp { dependency: dependencies[dependency].0, reason },
    )
}

/// How a service task goes on. It waits for its dependencies in order, boots,
/// waits for the other services, and then for the shutdown, on which it stops
/// its container. A shutdown that comes while it still waits for a dependency
/// ends it at once: there is no container yet.
pub open spec fn task_next(
    dependencies: Dependencies,
    phase: TaskPhase,
    event: TaskEventView,
) -> (TaskPhase, TaskActionView)
    recommends
        fits(dependencies, phase, event),
{
    match phase {
        TaskPhase::Await { dependency } => match event {
            TaskEventView::DependencyStarted => if dependencies[dependency as int].1
                == DependencyCondition::ServiceStarted {
                turn_to(dependencies, dependency + 1)
            } else {
                (
                    TaskPhase::Inspect { dependency, attempt: 0 },
                    TaskActionView::InspectDependency { name: dependencies[dependency as int].0 },
                )
            },
            TaskEventView::DependencyLost => gives_up(
                dependencies,
                dependency as int,
                "failed to start"@,
            ),
            _ => (TaskPhase::End, TaskActionView::Finish),
        },
        TaskPhase::Inspect { dependency, attempt } => match event {
            TaskEventView::Inspected(reply) => match inspect::condition_verdict(
                dependencies[dependency as int].1,
                reply,
            ) {
                VerdictView::Ready => turn_to(dependencies, dependency + 1),
                VerdictView::Failed(reason) => gives_up(dependencies, dependency as int, reason),
                VerdictView::Pending => (
                    TaskPhase::Sleep { dependency, attempt },
                    TaskActionView::Sleep,
                ),
            },
            _ => (TaskPhase::End, TaskActionView::Finish),
        },
        TaskPhase::Sleep { dependency, attempt } => match event {
            TaskEventView::Slept => if attempt + 1 < DEPENDENCY_WAIT_MAX_ATTEMPTS {
                (
                    TaskPhase::Inspect { dependency, attempt: (attempt + 1) as u32 },
                    TaskActionView::InspectDependency { name: dependencies[dependency as int].0 },
                )
            } else {
                gives_up(
                    dependencies,
                    dependency as int,
                    inspect::exhausted_reason(dependencies[dependency as int].1),
                )
            },
            _ => (TaskPhase::End, TaskActionView::Finish),
        },
        TaskPhase::Boot => match event {
            TaskEventView::BootFinished(Ok(_)) => (
                TaskPhase::Barrier,
                TaskActionView::PublishStarted,
            ),
            TaskEventView::BootFinished(Err(error)) => (
                TaskPhase::End,
                TaskActionView::ReportFailure(error),
            ),
            _ => (TaskPhase::Stop, TaskActionView::StopContainer),
        },
        TaskPhase::Barrier => match event {
            TaskEventView::BarrierPassed => (TaskPhase::Run, TaskActionView::AwaitShutdown),
            _ => (TaskPhase::Stop, TaskActionView::StopContainer),
        },
        TaskPhase::Run => (TaskPhase::Stop, TaskActionView::StopContainer),
        TaskPhase::Stop => (TaskPhase::End, TaskActionView::Finish),
        TaskPhase::End => (TaskPhase::End, TaskActionView::Finish),
    }
}

/// The task that brings up one service and takes it down again.
pub struct ServiceTask {
    pub name: String,
    pub dependencies: Vec<(String, DependencyCondition)>,
    pub phase: TaskPhase,
}

impl ServiceTask {
    /// The dependencies of the service.
    pub open spec fn wants(&self) -> Dependencies {
        graph::conditioned(self.dependencies@)
    }

    /// Turns to a dependency, or to the boot where there is none left.
    fn advance(&mut self, dependency: usize) -> (action: TaskAction)
        ensures
            final(self).name == old(self).name,
            final(self).dependencies == old(self).dependencies,
            (final(self).phase, action@) == turn_to(old(self).wants(), dependency as int),
    {
        if dependency < self.dependencies.len() {
            self.phase = TaskPhase::Await { dependency };
            TaskAction::AwaitDependency { name: self.dependencies[dependency].0.clone() }
        } else {
            self.phase = TaskPhase::Boot;
            TaskAction::BootService
        }
    }

    /// Ends because of a dependency.
    fn refuse(&mut self, dependency: usize, reason: String) -> (action: TaskAction)
        requires
            dependency < old(self).dependencies@.len(),
        ensures
            final(self).name == old(self).name,
            final(self).dependencies == old(self).dependencies,
            (final(self).phase, action@) == gives_up(
                old(self).wants(),
                dependency as int,
                reason@,
            ),
    {
        self.phase = TaskPhase::End;
        TaskAction::GiveUp { dependency: self.dependencies[dependency].0.clone(), reason }
    }

    /// The task of a service, and what it has to do first.
    pub fn begin(name: &str, config: &ServiceConfig) -> (begun: (ServiceTask, TaskAction))
        ensures
            begun.0.name@ == name@,
            begun.0.wants() == graph::dependencies_of(config.depends_on),
            (begun.0.phase, begun.1@) == turn_to(graph::dependencies_of(config.depends_on), 0),
    {
        let mut task = ServiceTask {
            name: name.to_owned(),
            dependencies: config.dependencies(),
            phase: TaskPhase::Boot,
        };
        let action = task.advance(0);
        (task, action)
    }

    /// Takes what happened and says what is to be done next.
    pub fn step(&mut self, event: TaskEvent) -> (action: TaskAction)
        requires
            fits(old(self).wants(), old(self).phase, event@),
        ensures
            final(self).name == old(self).name,
            final(self).dependencies == old(self).dependencies,
            (final(self).phase, action@) == task_next(
                old(self).wants(),
                old(self).phase,
                event@,
            ),
    {
        match self.phase {
            TaskPhase::Await { dependency } => match event {
                TaskEvent::DependencyStarted => {
                    let room: usize = self.dependencies.len();
                    match self.dependencies[dependency].1 {
                        DependencyCondition::ServiceStarted => self.advance(dependency + 1),
                        _ => {
                            self.phase = TaskPhase::Inspect { dependency, attempt: 0 };
                            TaskAction::InspectDependency {
                                name: self.dependencies[dependency].0.clone(),
                            }
                        },
                    }
                },
                TaskEvent::DependencyLost => self.refuse(dependency, "failed to start".to_owned()),
                _ => {
                    self.phase = TaskPhase::End;
                    TaskAction::Finish
                },
            },
            TaskPhase::Inspect { dependency, attempt } => match event {
                TaskEvent::Inspected(reply) => {
                    let room: usize = self.dependencies.len();
                    match check_condition(self.dependencies[dependency].1, &reply) {
                        Verdict::Ready => self.advance(dependency + 1),
                        Verdict::Failed(reason) => self.refuse(dependency, reason),
                        Verdict::Pending => {
                            self.phase = TaskPhase::Sleep { dependency, attempt };
                            TaskAction::Sleep
                        },
                    }
                },
                _ => {
                    self.phase = TaskPhase::End;
                    TaskAction::Finish
                },
            },
            TaskPhase::Sleep { dependency, attempt } => match event {
                TaskEvent::Slept => {
                    if attempt + 1 < DEPENDENCY_WAIT_MAX_ATTEMPTS {
                        self.phase = TaskPhase::Inspect { dependency, attempt: attempt + 1 };
                        TaskAction::InspectDependency {
                            name: self.dependencies[dependency].0.clone(),
                        }
                    } else {
                        let reason = give_up_reason(self.dependencies[dependency].1);
                        self.refuse(dependency, reason)
                    }
                },
                _ => {
                    self.phase = TaskPhase::End;
                    TaskAction::Finish
                },
            },
            TaskPhase::Boot => match event {
                TaskEvent::BootFinished(Ok(_)) => {
                    self.phase = TaskPhase::Barrier;
                    TaskAction::PublishStarted
                },
                TaskEvent::BootFinished(Err(error)) => {
                    self.phase = TaskPhase::End;
                    TaskAction::ReportFailure(error)
                },
                _ => {
                    self.phase = TaskPhase::Stop;
                    TaskAction::StopContainer
                },
            },
            TaskPhase::Barrier => match event {
                TaskEvent::BarrierPassed => {
                    self.phase = TaskPhase::Run;
                    TaskAction::AwaitShutdown
                },
                _ => {
                    self.phase = TaskPhase::Stop;
                    TaskAction::StopContainer
                },
            },
            TaskPhase::Run => {
                self.phase = TaskPhase::Stop;
                TaskAction::StopContainer
            },
            TaskPhase::Stop | TaskPhase::End => {
                self.phase = TaskPhase::End;
                TaskAction::Finish
            },
        }
    }
}

/// Whether no two services have one name.
pub fn names_distinct(services: &Vec<(String, ServiceConfig)>) -> (yes: bool)
    ensures
        yes == graph::service_names(services@).no_duplicates(),
{
    let ghost names = graph::service_names(services@);
    let mut i: usize = 0;
    while i < services.len()
        invariant
            i <= services@.len(),
            names == graph::service_names(services@),
            forall|a: int, b: int| 0 <= a < b < i ==> names[a] != names[b],
        decreases services@.len() - i,
    {
        let mut j: usize = 0;
        while j < i
            invariant
                j <= i < services@.len(),
                names == graph::service_names(services@),
                forall|a: int| 0 <= a < j ==> names[a] != names[i as int],
            decreases i - j,
        {
            if same(&services[j].0, &services[i].0) {
                assert(names[j as int] == names[i as int]);
                return false;
            }
            j += 1;
        }
        i += 1;
    }
    true
}

/// What the tasks of the services have to do first.
pub open spec fn begun(
    tasks: Seq<(ServiceTask, TaskAction)>,
    services: Seq<(String, ServiceConfig)>,
) -> bool {
    &&& tasks.len() == services.len()
    &&& forall|i: int|
        0 <= i < services.len() ==> {
            &&& (#[trigger] tasks[i]).0.name@ == services[i].0@
            &&& tasks[i].0.wants() == graph::dependencies_of(services[i].1.depends_on)
            &&& (tasks[i].0.phase, tasks[i].1@) == turn_to(
                graph::dependencies_of(services[i].1.depends_on),
                0,
            )
        }
}

/// Begins the startup: checks the dependencies and makes one task for each
/// service. Nothing is begun where a dependency is unknown or the dependencies
/// run in a circle. Each service has a name of its own.
pub fn start_docker_container(docker_services: &Vec<(String, ServiceConfig)>) -> (result: Result<
    Vec<(ServiceTask, TaskAction)>,
    DockerModuleError,
>)
    requires
        graph::graph_error(
            graph::service_names(docker_services@),
            graph::dependency_names(docker_services@),
        ) is None ==> graph::service_names(docker_services@).no_duplicates(),
    ensures
        match result {
            Ok(tasks) => {
                &&& graph::graph_error(
                    graph::service_names(docker_services@),
                    graph::dependency_names(docker_services@),
                ) is None
                &&& begun(tasks@, docker_services@)
            },
            Err(error) => graph::graph_error(
                graph::service_names(docker_services@),
                graph::dependency_names(docker_services@),
            ) == Some(error@),
        },
{
    match validate_dependency_graph(docker_services) {
        Ok(_) => {},
        Err(error) => {
            return Err(error);
        },
    }
    let mut tasks: Vec<(ServiceTask, TaskAction)> = Vec::new();
    for i in 0..docker_services.len()
        invariant
            tasks@.len() == i,
            forall|j: int|
                0 <= j < i ==> {
                    &&& (#[trigger] tasks@[j]).0.name@ == docker_services@[j].0@
                    &&& tasks@[j].0.wants() == graph::dependencies_of(docker_services@[j].1.depends_on)
                    &&& (tasks@[j].0.phase, tasks@[j].1@) == turn_to(
                        graph::dependencies_of(docker_services@[j].1.depends_on),
                        0,
                    )
                },
    {
        tasks.push(ServiceTask::begin(&docker_services[i].0, &docker_services[i].1));
    }
    Ok(tasks)
}

/// What decides a startup.
pub enum StartupEvent {
    /// Every service passed the barrier.
    AllStarted,
    /// The boot of a service failed.
    Failed(DockerModuleError),
    /// The shutdown came first.
    Shutdown,
}

/// The result of a startup: the error of a boot, and success where all services
/// started or the shutdown came first.
pub fn startup_result(event: StartupEvent) -> (result: Result<(), DockerModuleError>)
    ensures
        result == (match event {
            StartupEvent::Failed(error) => Err(error),
            _ => Ok(()),
        }),
{
    match event {
        StartupEvent::Failed(error) => Err(error),
        _ => Ok(()),
    }
}

// ---------------------------------------------------------------------------
// Laws of the startup
// ---------------------------------------------------------------------------

/// The phase of a task after a history of events.
pub open spec fn phase_after(dependencies: Dependencies, events: Seq<TaskEventView>) -> TaskPhase
    decreases events.len(),
{
    if events.len() == 0 {
        turn_to(dependencies, 0).0
    } else {
        task_next(
            dependencies,
            phase_after(dependencies, events.drop_last()),
            events.last(),
        ).0
    }
}

/// Whether a history of events can happen to a task.
pub open spec fn possible(dependencies: Dependencies, events: Seq<TaskEventView>) -> bool
    decreases events.len(),
{
    events.len() > 0 ==> possible(dependencies, events.drop_last()) && fits(
        dependencies,
        phase_after(dependencies, events.drop_last()),
        events.last(),
    )
}

/// Whether the task was told, at some point of its history and while it waited
/// for it, that a dependency is started.
pub open spec fn saw_started(
    dependencies: Dependencies,
    events: Seq<TaskEventView>,
    dependency: int,
) -> bool {
    exists|i: int|
        0 <= i < events.len() && events[i] is DependencyStarted && #[trigger] phase_after(
            dependencies,
            events.take(i),
        ) == (TaskPhase::Await { dependency: dependency as usize })
}

/// Whether the task saw, at some point of its history, an inspection of the
/// dependency that satisfies its condition.
pub open spec fn saw_satisfied(
    dependencies: Dependencies,
    events: Seq<TaskEventView>,
    dependency: int,
) -> bool {
    exists|i: int|
        {
            &&& 0 <= i < events.len()
            &&& events[i] matches TaskEventView::Inspected(reply) && inspect::condition_verdict(
                dependencies[dependency].1,
                reply,
            ) is Ready
            &&& (#[trigger] phase_after(dependencies, events.take(i))) matches TaskPhase::Inspect {
                dependency: inspected,
                ..
            } && inspected == dependency
        }
}

/// Whether a dependency was seen started and, where its condition asks for more
/// than that, seen to satisfy it.
pub open spec fn saw_ready(
    dependencies: Dependencies,
    events: Seq<TaskEventView>,
    dependency: int,
) -> bool {
    saw_started(dependencies, events, dependency) && (dependencies[dependency].1
        == DependencyCondition::ServiceStarted || saw_satisfied(dependencies, events, dependency))
}

/// How many dependencies a phase has behind it.
pub open spec fn behind(dependencies: Dependencies, phase: TaskPhase) -> int {
    match phase {
        TaskPhase::Await { dependency } => dependency as int,
        TaskPhase::Inspect { dependency, .. } => dependency as int,
        TaskPhase::Sleep { dependency, .. } => dependency as int,
        TaskPhase::End => 0,
        _ => dependencies.len() as int,
    }
}

proof fn lemma_saw_more(
    dependencies: Dependencies,
    events: Seq<TaskEventView>,
    event: TaskEventView,
    dependency: int,
)
    ensures
        saw_started(dependencies, events, dependency) ==> saw_started(
            dependencies,
            events.push(event),
            dependency,
        ),
        saw_ready(dependencies, events, dependency) ==> saw_ready(
            dependencies,
            events.push(event),
            dependency,
        ),
{
    let more = events.push(event);
    assert forall|i: int| 0 <= i < events.len() implies #[trigger] events.take(i) == more.take(
        i,
    ) by {
        assert(events.take(i) =~= more.take(i));
    }
    if saw_started(dependencies, events, dependency) {
        let i = choose|i: int|
            0 <= i < events.len() && events[i] is DependencyStarted && #[trigger] phase_after(
                dependencies,
                events.take(i),
            ) == (TaskPhase::Await { dependency: dependency as usize });
        assert(more[i] == events[i]);
        assert(phase_after(dependencies, more.take(i)) == (TaskPhase::Await {
            dependency: dependency as usize,
        }));
    }
    if saw_satisfied(dependencies, events, dependency) {
        let i = choose|i: int|
            {
                &&& 0 <= i < events.len()
                &&& events[i] matches TaskEventView::Inspected(reply) && inspect::condition_verdict(
                    dependencies[dependency].1,
                    reply,
                ) is Ready
                &&& (#[trigger] phase_after(dependencies, events.take(i))) matches TaskPhase::Inspect {
                    dependency: inspected,
                    ..
                } && inspected == dependency
            };
        assert(more[i] == events[i]);
        assert(phase_after(dependencies, more.take(i)) == phase_after(
            dependencies,
            events.take(i),
        ));
    }
}

proof fn lemma_history(dependencies: Dependencies, events: Seq<TaskEventView>)
    requires
        dependencies.len() <= usize::MAX,
        possible(dependencies, events),
    ensures
        forall|k: int|
            0 <= k < behind(dependencies, phase_after(dependencies, events)) ==> #[trigger]
            saw_ready(dependencies, events, k),
        phase_after(dependencies, events) matches TaskPhase::Inspect { dependency, .. }
            ==> saw_started(dependencies, events, dependency as int),
        phase_after(dependencies, events) matches TaskPhase::Sleep { dependency, .. }
            ==> saw_started(dependencies, events, dependency as int),
        behind(dependencies, phase_after(dependencies, events)) <= dependencies.len(),
    decreases events.len(),
{
    if events.len() > 0 {
        let before = events.drop_last();
        let event = events.last();
        let phase = phase_after(dependencies, before);
        lemma_history(dependencies, before);
        assert(before.push(event) =~= events);
        assert(events.take(events.len() - 1) =~= before);
        assert(events[events.len() - 1] == event);
        let after = phase_after(dependencies, events);
        assert forall|k: int| 0 <= k < behind(dependencies, phase) implies #[trigger] saw_ready(
            dependencies,
            events,
            k,
        ) by {
            lemma_saw_more(dependencies, before, event, k);
        }
        match phase {
            TaskPhase::Await { dependency } => {
                if event is DependencyStarted {
                    assert(phase_after(dependencies, events.take(events.len() - 1)) == phase);
                    assert(saw_started(dependencies, events, dependency as int));
                    if dependencies[dependency as int].1 == DependencyCondition::ServiceStarted {
                        assert(saw_ready(dependencies, events, dependency as int));
                    }
                }
            },
            TaskPhase::Inspect { dependency, attempt } => {
                lemma_saw_more(dependencies, before, event, dependency as int);
                if let TaskEventView::Inspected(reply) = event {
                    if inspect::condition_verdict(dependencies[dependency as int].1, reply) is Ready {
                        assert(phase_after(dependencies, events.take(events.len() - 1)) == phase);
                        assert(saw_satisfied(dependencies, events, dependency as int));
                        assert(saw_ready(dependencies, events, dependency as int));
                    }
                }
            },
            TaskPhase::Sleep { dependency, attempt } => {
                lemma_saw_more(dependencies, before, event, dependency as int);
            },
            _ => {},
        }
    }
}

/// A service boots only after its dependencies: whatever happened before, a
/// task that has come to its boot saw every dependency started, and saw those
/// whose condition asks for more satisfy it.
pub proof fn service_boots_after_its_dependencies(
    dependencies: Dependencies,
    events: Seq<TaskEventView>,
    dependency: int,
)
    requires
        dependencies.len() <= usize::MAX,
        possible(dependencies, events),
        phase_after(dependencies, events) is Boot,
        0 <= dependency < dependencies.len(),
    ensures
        saw_ready(dependencies, events, dependency),
{
    lemma_history(dependencies, events);
}

/// Dependents hear of a service only once its boot has succeeded.
pub proof fn started_is_published_after_the_boot(
    dependencies: Dependencies,
    phase: TaskPhase,
    event: TaskEventView,
)
    requires
        fits(dependencies, phase, event),
    ensures
        task_next(dependencies, phase, event).1 is PublishStarted <==> (phase is Boot && (
        event matches TaskEventView::BootFinished(Ok(_)))),
{
}

/// A shutdown is never lost: a task that may have a container stops it, one that
/// still waits for a dependency ends without touching any.
pub proof fn shutdown_stops_what_was_booted(dependencies: Dependencies, phase: TaskPhase)
    requires
        fits(dependencies, phase, TaskEventView::Shutdown),
    ensures
        task_next(dependencies, phase, TaskEventView::Shutdown) == (if phase is Boot
            || phase is Barrier || phase is Run {
            (TaskPhase::Stop, TaskActionView::StopContainer)
        } else {
            (TaskPhase::End, TaskActionView::Finish)
        }),
{
}

/// A service is booted only after each of its dependencies did what was asked of
/// it: one that has to be healthy was seen healthy, or running where it has no
/// health check, and one that has to complete was seen at its end with the exit
/// code zero.
pub proof fn service_boots_after_success(
    dependencies: Dependencies,
    events: Seq<TaskEventView>,
    dependency: int,
)
    requires
        dependencies.len() <= usize::MAX,
        possible(dependencies, events),
        phase_after(dependencies, events) is Boot,
        0 <= dependency < dependencies.len(),
    ensures
        dependencies[dependency].1 == DependencyCondition::ServiceHealthy ==> exists|i: int|
            0 <= i < events.len() && (#[trigger] events[i] matches TaskEventView::Inspected(
                Ok(Some(state)),
            ) && match state.health {
                Some(health) => health.status == Some(inspect::HealthStatus::Healthy),
                None => state.running == Some(true),
            }),
        dependencies[dependency].1 == DependencyCondition::ServiceCompletedSuccessfully ==> exists|
            i: int,
        |
            0 <= i < events.len() && (#[trigger] events[i] matches TaskEventView::Inspected(
                Ok(Some(state)),
            ) && (state.status == Some(inspect::ContainerStatus::Exited) || state.status == Some(
                inspect::ContainerStatus::Dead,
            )) && state.exit_code == Some(0i64)),
{
    service_boots_after_its_dependencies(dependencies, events, dependency);
    if dependencies[dependency].1 != DependencyCondition::ServiceStarted {
        let i = choose|i: int|
            {
                &&& 0 <= i < events.len()
                &&& events[i] matches TaskEventView::Inspected(reply) && inspect::condition_verdict(
                    dependencies[dependency].1,
                    reply,
                ) is Ready
                &&& (#[trigger] phase_after(dependencies, events.take(i))) matches TaskPhase::Inspect {
                    dependency: inspected,
                    ..
                } && inspected == dependency
            };
        let reply = events[i]->Inspected_0;
        inspect::only_a_zero_exit_is_success(reply);
        inspect::only_health_counts_where_it_is_checked(reply);
    }
}

/// A dependency that ended with another exit code than zero keeps the service
/// down: the task gives up and says which dependency and which code.
pub proof fn failed_dependency_keeps_the_service_down(
    dependencies: Dependencies,
    dependency: usize,
    attempt: u32,
    state: inspect::ContainerState,
    code: i64,
)
    requires
        dependency < dependencies.len(),
        dependencies[dependency as int].1 == DependencyCondition::ServiceCompletedSuccessfully,
        state.status == Some(inspect::ContainerStatus::Exited) || state.status == Some(
            inspect::ContainerStatus::Dead,
        ),
        state.exit_code == Some(code),
        code != 0,
    ensures
        task_next(
            dependencies,
            TaskPhase::Inspect { dependency, attempt },
            TaskEventView::Inspected(Ok(Some(state))),
        ) == (
            TaskPhase::End,
            TaskActionView::GiveUp {
                dependency: dependencies[dependency as int].0,
                reason: "exited with code "@ + crate::numbers::decimal(code as int),
            },
        ),
{
    inspect::only_a_zero_exit_is_success(Ok(Some(state)));
}

/// A task asks about its dependencies in order, by their names: it begins with
/// the first, turns from one only to the next, and boots behind the last. Where
/// it gives up, it names the one it waited for.
pub proof fn task_asks_about_its_dependencies_in_order(
    dependencies: Dependencies,
    phase: TaskPhase,
    event: TaskEventView,
)
    requires
        dependencies.len() <= usize::MAX,
        fits(dependencies, phase, event),
    ensures
        dependencies.len() == 0 ==> turn_to(dependencies, 0).1 is BootService,
        dependencies.len() > 0 ==> turn_to(dependencies, 0) == (
            TaskPhase::Await { dependency: 0 },
            TaskActionView::AwaitDependency { name: dependencies[0].0 },
        ),
        ({
            let (next, action) = task_next(dependencies, phase, event);
            &&& action is BootService ==> behind(dependencies, phase) == dependencies.len() - 1
            &&& action matches TaskActionView::AwaitDependency { name } ==> {
                &&& next == (TaskPhase::Await {
                    dependency: (behind(dependencies, phase) + 1) as usize,
                })
                &&& behind(dependencies, phase) + 1 < dependencies.len()
                &&& name == dependencies[behind(dependencies, phase) + 1].0
            }
            &&& action matches TaskActionView::InspectDependency { name } ==> {
                &&& next matches TaskPhase::Inspect { dependency, .. } && dependency == behind(
                    dependencies,
                    phase,
                )
                &&& name == dependencies[behind(dependencies, phase)].0
            }
            &&& action matches TaskActionView::GiveUp { dependency, .. } ==> next is End
                && dependency == dependencies[behind(dependencies, phase)].0
        }),
{
}

/// Where the waits for a dependency are after pending inspections.
pub open spec fn waits_after_pending(
    dependencies: Dependencies,
    dependency: usize,
    replies: Seq<InspectionView>,
) -> (TaskPhase, TaskActionView)
    decreases replies.len(),
{
    if replies.len() == 0 {
        task_next(
            dependencies,
            TaskPhase::Await { dependency },
            TaskEventView::DependencyStarted,
        )
    } else {
        let before = waits_after_pending(dependencies, dependency, replies.drop_last()).0;
        let asleep = task_next(
            dependencies,
            before,
            TaskEventView::Inspected(replies.last()),
        ).0;
        task_next(dependencies, asleep, TaskEventView::Slept)
    }
}

/// A dependency whose condition is open is inspected 120 times, and given up
/// after that.
pub proof fn dependency_is_awaited_for_all_attempts(
    dependencies: Dependencies,
    dependency: usize,
    replies: Seq<InspectionView>,
)
    requires
        dependency < dependencies.len(),
        dependencies[dependency as int].1 != DependencyCondition::ServiceStarted,
        replies.len() <= 120,
        forall|i: int|
            0 <= i < replies.len() ==> inspect::condition_verdict(
                dependencies[dependency as int].1,
                #[trigger] replies[i],
            ) is Pending,
    ensures
        waits_after_pending(dependencies, dependency, replies) == (if replies.len() < 120 {
            (
                TaskPhase::Inspect { dependency, attempt: replies.len() as u32 },
                TaskActionView::InspectDependency { name: dependencies[dependency as int].0 },
            )
        } else {
            (
                TaskPhase::End,
                TaskActionView::GiveUp {
                    dependency: dependencies[dependency as int].0,
                    reason: if dependencies[dependency as int].1
                        == DependencyCondition::ServiceHealthy {
                        "did not become healthy in time"@
                    } else {
                        "did not complete in time"@
                    },
                },
            )
        }),
    decreases replies.len(),
{
    if replies.len() > 0 {
        let init = replies.drop_last();
        assert forall|i: int| 0 <= i < init.len() implies inspect::condition_verdict(
            dependencies[dependency as int].1,
            #[trigger] init[i],
        ) is Pending by {
            assert(init[i] == replies[i]);
        }
        dependency_is_awaited_for_all_attempts(dependencies, dependency, init);
        assert(inspect::condition_verdict(
            dependencies[dependency as int].1,
            replies[replies.len() - 1],
        ) is Pending);
    }
}

/// A service whose boot failed hands its own error on; a dependency whose task
/// ended without starting it is named as such.
pub proof fn failures_are_passed_on(
    dependencies: Dependencies,
    dependency: usize,
    error: DockerErrorView,
)
    requires
        dependency < dependencies.len(),
    ensures
        task_next(dependencies, TaskPhase::Boot, TaskEventView::BootFinished(Err(error))).1
            == TaskActionView::ReportFailure(error),
        task_next(
            dependencies,
            TaskPhase::Await { dependency },
            TaskEventView::DependencyLost,
        ).1 == (TaskActionView::GiveUp {
            dependency: dependencies[dependency as int].0,
            reason: "failed to start"@,
        }),
        task_next(dependencies, TaskPhase::Barrier, TaskEventView::BarrierPassed).1
            == TaskActionView::AwaitShutdown,
{
}

/// There is one task for each service, in order, under its name and with its
/// dependencies. It begins with the first of these, or boots where it has none.
pub proof fn every_service_gets_its_task(
    tasks: Seq<(ServiceTask, TaskAction)>,
    services: Seq<(String, ServiceConfig)>,
    i: int,
)
    requires
        begun(tasks, services),
        0 <= i < services.len(),
    ensures
        tasks.len() == services.len(),
        tasks[i].0.name@ == services[i].0@,
        tasks[i].0.wants() == graph::dependencies_of(services[i].1.depends_on),
        graph::dependencies_of(services[i].1.depends_on).len() == 0 ==> tasks[i].1@ is BootService,
        graph::dependencies_of(services[i].1.depends_on).len() > 0 ==> tasks[i].1@
            == (TaskActionView::AwaitDependency {
            name: graph::dependencies_of(services[i].1.depends_on)[0].0,
        }),
{
}

/// A dependency that is ready is left behind: the task turns to the next one, and
/// behind the last one it boots its service. One that only has to be started is
/// ready once it is; any other is looked at first.
pub proof fn ready_dependency_is_left_behind(
    dependencies: Dependencies,
    dependency: usize,
    attempt: u32,
    reply: InspectionView,
)
    requires
        dependency < dependencies.len() <= usize::MAX,
    ensures
        ({
            let onward = if dependency + 1 < dependencies.len() {
                (
                    TaskPhase::Await { dependency: (dependency + 1) as usize },
                    TaskActionView::AwaitDependency { name: dependencies[dependency + 1].0 },
                )
            } else {
                (TaskPhase::Boot, TaskActionView::BootService)
            };
            let condition = dependencies[dependency as int].1;
            let started = task_next(
                dependencies,
                TaskPhase::Await { dependency },
                TaskEventView::DependencyStarted,
            );
            let looked = task_next(
                dependencies,
                TaskPhase::Inspect { dependency, attempt },
                TaskEventView::Inspected(reply),
            );
            &&& condition == DependencyCondition::ServiceStarted ==> started == onward
            &&& condition != DependencyCondition::ServiceStarted ==> started == (
                TaskPhase::Inspect { dependency, attempt: 0 },
                TaskActionView::InspectDependency { name: dependencies[dependency as int].0 },
            )
            &&& match inspect::condition_verdict(condition, reply) {
                VerdictView::Ready => looked == onward,
                VerdictView::Pending => looked == (
                    TaskPhase::Sleep { dependency, attempt },
                    TaskActionView::Sleep,
                ),
                VerdictView::Failed(reason) => looked == (
                    TaskPhase::End,
                    TaskActionView::GiveUp {
                        dependency: dependencies[dependency as int].0,
                        reason,
                    },
                ),
            }
        }),
{
}

/// A booted service tells that it started, waits until all have, runs until the
/// shutdown, and is stopped once.
pub proof fn booted_service_runs_until_the_shutdown(dependencies: Dependencies)
    ensures
        task_next(dependencies, TaskPhase::Boot, TaskEventView::BootFinished(Ok(()))) == (
            TaskPhase::Barrier,
            TaskActionView::PublishStarted,
        ),
        task_next(dependencies, TaskPhase::Barrier, TaskEventView::BarrierPassed) == (
            TaskPhase::Run,
            TaskActionView::AwaitShutdown,
        ),
        task_next(dependencies, TaskPhase::Run, TaskEventView::Shutdown) == (
            TaskPhase::Stop,
            TaskActionView::StopContainer,
        ),
        task_next(dependencies, TaskPhase::Stop, TaskEventView::Stopped) == (
            TaskPhase::End,
            TaskActionView::Finish,
        ),
{
}

} // verus!
