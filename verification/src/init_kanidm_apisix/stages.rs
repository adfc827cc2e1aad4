//! The stages of the provisioning, in order.

use crate::configuration::ServicesConfiguration;
use crate::kanidm::provision::ProvisionedPerson;
use vstd::prelude::*;

verus! {

/// How the gateway is reached.
#[derive(Clone, Copy, Debug, PartialEq, Eq, Structural)]
pub enum Reach {
    Direct,
    ViaDocker,
}

impl Default for Reach {
    /// Through a container.
    fn default() -> (reach: Self)
        ensures
            reach == Reach::ViaDocker,
    {
        Reach::ViaDocker
    }
}

/// What a run did.
pub struct RunSummary {
    pub routes: usize,
    pub persons: Vec<ProvisionedPerson>,
}

/// How far a run has come.
#[derive(Clone, Copy, Debug, PartialEq, Eq, Structural)]
pub enum InitPhase {
    CheckSession,
    ProvisionClients,
    WriteClientSecrets,
    KeepSessionSecret,
    ProvisionPersons,
    ReadClientSecrets,
    ReadSessionSecret,
    ReadAdminKey,
    Preflight,
    ApplyRoutes,
    Done,
}

/// What follows a phase that went well. Without persons nothing is asked of
/// kanidm for them.
pub open spec fn phase_after(phase: InitPhase, has_persons: bool) -> InitPhase {
    match phase {
        InitPhase::CheckSession => InitPhase::ProvisionClients,
        InitPhase::ProvisionClients => InitPhase::WriteClientSecrets,
        InitPhase::WriteClientSecrets => InitPhase::KeepSessionSecret,
        InitPhase::KeepSessionSecret => if has_persons {
            InitPhase::ProvisionPersons
        } else {
            InitPhase::ReadClientSecrets
        },
        InitPhase::ProvisionPersons => InitPhase::ReadClientSecrets,
        InitPhase::ReadClientSecrets => InitPhase::ReadSessionSecret,
        InitPhase::ReadSessionSecret => InitPhase::ReadAdminKey,
        InitPhase::ReadAdminKey => InitPhase::Preflight,
        InitPhase::Preflight => InitPhase::ApplyRoutes,
        InitPhase::ApplyRoutes => InitPhase::Done,
        InitPhase::Done => InitPhase::Done,
    }
}

/// The phase that a run begins with.
pub fn run_all() -> (phase: InitPhase)
    ensures
        phase == InitPhase::CheckSession,
{
    InitPhase::CheckSession
}

/// What follows a phase that went well.
pub fn next_phase(phase: InitPhase, configuration: &ServicesConfiguration) -> (next: InitPhase)
    ensures
        next == phase_after(phase, configuration.persons@.len() > 0),
{
    match phase {
        InitPhase::CheckSession => InitPhase::ProvisionClients,
        InitPhase::ProvisionClients => InitPhase::WriteClientSecrets,
        InitPhase::WriteClientSecrets => InitPhase::KeepSessionSecret,
        InitPhase::KeepSessionSecret => if configuration.persons.len() > 0 {
            InitPhase::ProvisionPersons
        } else {
            InitPhase::ReadClientSecrets
        },
        InitPhase::ProvisionPersons => InitPhase::ReadClientSecrets,
        InitPhase::ReadClientSecrets => InitPhase::ReadSessionSecret,
        InitPhase::ReadSessionSecret => InitPhase::ReadAdminKey,
        InitPhase::ReadAdminKey => InitPhase::Preflight,
        InitPhase::Preflight => InitPhase::ApplyRoutes,
        InitPhase::ApplyRoutes => InitPhase::Done,
        InitPhase::Done => InitPhase::Done,
    }
}

/// The phase after a number of phases that went well.
pub open spec fn phase_at(steps: nat, has_persons: bool) -> InitPhase
    decreases steps,
{
    if steps == 0 {
        InitPhase::CheckSession
    } else {
        phase_after(phase_at((steps - 1) as nat, has_persons), has_persons)
    }
}

/// A run whose phases all go well comes to its end, and with persons it has one
/// phase more.
pub proof fn run_comes_to_its_end(has_persons: bool)
    ensures
        phase_at(
            if has_persons {
                10
            } else {
                9
            },
            has_persons,
        ) == InitPhase::Done,
{
    reveal_with_fuel(phase_at, 11);
}

/// Where a phase stands in the order.
pub open spec fn rank(phase: InitPhase) -> int {
    match phase {
        InitPhase::CheckSession => 0,
        InitPhase::ProvisionClients => 1,
        InitPhase::WriteClientSecrets => 2,
        InitPhase::KeepSessionSecret => 3,
        InitPhase::ProvisionPersons => 4,
        InitPhase::ReadClientSecrets => 5,
        InitPhase::ReadSessionSecret => 6,
        InitPhase::ReadAdminKey => 7,
        InitPhase::Preflight => 8,
        InitPhase::ApplyRoutes => 9,
        InitPhase::Done => 10,
    }
}

/// Every phase that goes well leads on: the gateway is touched only after the
/// session was checked, the clients were provisioned and their secrets were
/// written.
pub proof fn phases_lead_on(phase: InitPhase, has_persons: bool)
    requires
        phase != InitPhase::Done,
    ensures
        rank(phase) < rank(phase_after(phase, has_persons)) <= rank(phase) + 2,
        phase_after(phase, has_persons) == InitPhase::ProvisionPersons ==> has_persons,
{
}

/// The phases of a run, in order: the session is looked for first, the clients and
/// their secrets come before the persons, the persons before the routes, and a run
/// without persons passes them over.
pub proof fn phases_follow_each_other(has_persons: bool)
    ensures
        ({
            let next = |phase: InitPhase| phase_after(phase, has_persons);
            &&& next(InitPhase::CheckSession) == InitPhase::ProvisionClients
            &&& next(InitPhase::ProvisionClients) == InitPhase::WriteClientSecrets
            &&& next(InitPhase::WriteClientSecrets) == InitPhase::KeepSessionSecret
            &&& next(InitPhase::KeepSessionSecret) == if has_persons {
                InitPhase::ProvisionPersons
            } else {
                InitPhase::ReadClientSecrets
            }
            &&& next(InitPhase::ProvisionPersons) == InitPhase::ReadClientSecrets
            &&& next(InitPhase::ReadClientSecrets) == InitPhase::ReadSessionSecret
            &&& next(InitPhase::ReadSessionSecret) == InitPhase::ReadAdminKey
            &&& next(InitPhase::ReadAdminKey) == InitPhase::Preflight
            &&& next(InitPhase::Preflight) == InitPhase::ApplyRoutes
            &&& next(InitPhase::ApplyRoutes) == InitPhase::Done
            &&& next(InitPhase::Done) == InitPhase::Done
        }),
{
}

} // verus!
