//! Compose files: services, networks and volumes.

use crate::text;
use vstd::prelude::*;

verus! {

/// Everything that the compose files declare.
pub struct DockerDefinitions {
    pub services: Vec<(String, ServiceConfig)>,
    pub networks: Vec<(String, Option<NetworkConfig>)>,
    pub volumes: Vec<(String, Option<VolumeConfig>)>,
}

/// One compose file. The entries of each mapping stand in the order in which
/// they were read.
pub struct ComposeFile {
    pub services: Option<Vec<(String, ServiceConfig)>>,
    pub networks: Option<Vec<(String, Option<NetworkConfig>)>>,
    pub volumes: Option<Vec<(String, Option<VolumeConfig>)>>,
}

/// A service of a compose file. `mounts`, `env`, `command_argv` and
/// `restart_policy` are no keys of the file: they are filled in when the
/// service is loaded. So are `env_file_contents`, the contents of the files that
/// `env_file` lists, in order.
pub struct ServiceConfig {
    pub image: Option<String>,
    pub ports: Option<Vec<String>>,
    pub networks: Option<Vec<String>>,
    pub volumes: Option<Vec<VolumeSpec>>,
    pub mounts: Vec<ResolvedMount>,
    pub environment: Option<Environment>,
    pub env_file: Option<EnvFile>,
    pub env_file_contents: Vec<String>,
    pub env: Vec<String>,
    pub container_name: Option<String>,
    pub command: Option<String>,
    pub command_argv: Vec<String>,
    pub user: Option<String>,
    pub depends_on: Option<DependsOn>,
    pub restart: Option<String>,
    pub restart_policy: Option<RestartPolicy>,
}

/// The `environment` key.
pub enum Environment {
    /// `environment: ["KEY=VALUE", "KEY"]`
    List(Vec<String>),
    /// `environment: { KEY: VALUE }`
    Mapping(Vec<(String, EnvironmentValue)>),
}

/// A value of the mapping form of `environment`.
pub enum EnvironmentValue {
    Null,
    Bool(bool),
    Integer(i64),
    Text(String),
}

/// The `env_file` key.
pub enum EnvFile {
    /// `env_file: ./app.env`
    One(String),
    /// `env_file: [./app.env, ./local.env]`
    Many(Vec<String>),
}

/// The `depends_on` key.
pub enum DependsOn {
    /// `depends_on: [db, redis]`
    List(Vec<String>),
    /// `depends_on: { db: { condition: service_healthy } }`
    Mapping(Vec<(String, DependsOnEntry)>),
}

/// What the mapping form of `depends_on` says of one dependency.
#[derive(Clone, Copy)]
pub struct DependsOnEntry {
    pub condition: DependencyCondition,
}

/// What a dependency has to reach before its dependent boots.
#[derive(Clone, Copy, PartialEq, Eq, Debug, Structural)]
pub enum DependencyCondition {
    ServiceStarted,
    ServiceHealthy,
    ServiceCompletedSuccessfully,
}

impl Default for DependencyCondition {
    /// A dependency without a condition has to be started.
    fn default() -> (condition: Self)
        ensures
            condition == DependencyCondition::ServiceStarted,
    {
        DependencyCondition::ServiceStarted
    }
}

/// An entry of the `volumes` key of a service.
pub enum VolumeSpec {
    Short(String),
    Long(LongVolumeSpec),
}

/// The mapping form of a volume entry.
pub struct LongVolumeSpec {
    pub mount_type: String,
    pub source: Option<String>,
    pub target: String,
    pub read_only: bool,
}

/// The kind of a mount.
#[derive(Clone, Copy, PartialEq, Eq, Debug, Structural)]
pub enum MountType {
    BIND,
    VOLUME,
    TMPFS,
    NPIPE,
}

/// A mount whose source has been resolved.
pub struct ResolvedMount {
    pub mount_type: MountType,
    pub source: Option<String>,
    pub target: String,
    pub read_only: bool,
}

/// The contents of a resolved mount.
#[verifier::ext_equal]
pub struct MountView {
    pub mount_type: MountType,
    pub source: Option<Seq<char>>,
    pub target: Seq<char>,
    pub read_only: bool,
}

impl View for ResolvedMount {
    type V = MountView;

    open spec fn view(&self) -> MountView {
        MountView {
            mount_type: self.mount_type,
            source: text::opt_text(self.source),
            target: self.target@,
            read_only: self.read_only,
        }
    }
}

/// When the daemon restarts a container.
#[allow(non_camel_case_types)]
#[derive(Clone, Copy, PartialEq, Eq, Debug, Structural)]
pub enum RestartPolicyNameEnum {
    NO,
    ALWAYS,
    UNLESS_STOPPED,
    ON_FAILURE,
}

/// A restart policy, with the most retries that it allows.
#[derive(Clone, Copy, PartialEq, Eq, Debug, Structural)]
pub struct RestartPolicy {
    pub name: Option<RestartPolicyNameEnum>,
    pub maximum_retry_count: Option<i64>,
}

/// What a compose file says of a network.
pub struct NetworkConfig {
    pub driver: Option<String>,
}

/// What a compose file says of a volume.
pub struct VolumeConfig {
    pub driver: Option<String>,
}

impl Default for DockerDefinitions {
    /// No definitions at all.
    fn default() -> (definitions: Self)
        ensures
            definitions.services@.len() == 0,
            definitions.networks@.len() == 0,
            definitions.volumes@.len() == 0,
    {
        DockerDefinitions { services: Vec::new(), networks: Vec::new(), volumes: Vec::new() }
    }
}

impl Default for NetworkConfig {
    /// No driver.
    fn default() -> (config: Self)
        ensures
            config.driver is None,
    {
        NetworkConfig { driver: None }
    }
}

impl Default for VolumeConfig {
    /// No driver.
    fn default() -> (config: Self)
        ensures
            config.driver is None,
    {
        VolumeConfig { driver: None }
    }
}

/// Why the container stack could not be brought up.
#[derive(Debug)]
pub enum DockerModuleError {
    ComposeFileDirectoryNotFound(String),
    Read(String),
    Parse(String),
    Bollard(String),
    InvalidVolumeSpec(String),
    InvalidRestartPolicy(String),
    InvalidCommand(String),
    UnknownDependency { service: String, dependency: String },
    DependencyCycle(String),
    ServiceStartTimeout(String),
}

/// The contents of a `DockerModuleError`.
#[verifier::ext_equal]
pub enum DockerErrorView {
    ComposeFileDirectoryNotFound(Seq<char>),
    Read(Seq<char>),
    Parse(Seq<char>),
    Bollard(Seq<char>),
    InvalidVolumeSpec(Seq<char>),
    InvalidRestartPolicy(Seq<char>),
    InvalidCommand(Seq<char>),
    UnknownDependency { service: Seq<char>, dependency: Seq<char> },
    DependencyCycle(Seq<char>),
    ServiceStartTimeout(Seq<char>),
}

impl View for DockerModuleError {
    type V = DockerErrorView;

    open spec fn view(&self) -> DockerErrorView {
        match self {
            DockerModuleError::ComposeFileDirectoryNotFound(t) => {
                DockerErrorView::ComposeFileDirectoryNotFound(t@)
            },
            DockerModuleError::Read(t) => DockerErrorView::Read(t@),
            DockerModuleError::Parse(t) => DockerErrorView::Parse(t@),
            DockerModuleError::Bollard(t) => DockerErrorView::Bollard(t@),
            DockerModuleError::InvalidVolumeSpec(t) => DockerErrorView::InvalidVolumeSpec(t@),
            DockerModuleError::InvalidRestartPolicy(t) => DockerErrorView::InvalidRestartPolicy(t@),
            DockerModuleError::InvalidCommand(t) => DockerErrorView::InvalidCommand(t@),
            DockerModuleError::UnknownDependency { service, dependency } => {
                DockerErrorView::UnknownDependency { service: service@, dependency: dependency@ }
            },
            DockerModuleError::DependencyCycle(t) => DockerErrorView::DependencyCycle(t@),
            DockerModuleError::ServiceStartTimeout(t) => DockerErrorView::ServiceStartTimeout(t@),
        }
    }
}

impl DockerErrorView {
    /// The text that describes the error.
    pub open spec fn description(self) -> Seq<char> {
        match self {
            DockerErrorView::ComposeFileDirectoryNotFound(t) => {
                "Compose file directory not found: "@ + t
            },
            DockerErrorView::Read(t) => "Failed to read the file: "@ + t,
            DockerErrorView::Parse(t) => "Failed to parse the yaml content: "@ + t,
            DockerErrorView::Bollard(t) => "Bollard(docker) error: "@ + t,
            DockerErrorView::InvalidVolumeSpec(t) => "Invalid volume specification: "@ + t,
            DockerErrorView::InvalidRestartPolicy(t) => "Invalid restart policy: "@ + t,
            DockerErrorView::InvalidCommand(t) => "Invalid command: "@ + t,
            DockerErrorView::UnknownDependency { service, dependency } => {
                "Service ["@ + service + "] depends on unknown service ["@ + dependency + "]"@
            },
            DockerErrorView::DependencyCycle(t) => {
                "Dependency cycle detected among services: "@ + t
            },
            DockerErrorView::ServiceStartTimeout(t) => {
                "Service ["@ + t + "] did not reach a running state in time"@
            },
        }
    }
}

impl DockerModuleError {
    /// Describes the error.
    pub fn message(&self) -> (text: String)
        ensures
            text@ == self@.description(),
    {
        match self {
            DockerModuleError::ComposeFileDirectoryNotFound(t) => crate::text::cat2(
                "Compose file directory not found: ",
                t,
            ),
            DockerModuleError::Read(t) => crate::text::cat2("Failed to read the file: ", t),
            DockerModuleError::Parse(t) => crate::text::cat2(
                "Failed to parse the yaml content: ",
                t,
            ),
            DockerModuleError::Bollard(t) => crate::text::cat2("Bollard(docker) error: ", t),
            DockerModuleError::InvalidVolumeSpec(t) => crate::text::cat2(
                "Invalid volume specification: ",
                t,
            ),
            DockerModuleError::InvalidRestartPolicy(t) => crate::text::cat2(
                "Invalid restart policy: ",
                t,
            ),
            DockerModuleError::InvalidCommand(t) => crate::text::cat2("Invalid command: ", t),
            DockerModuleError::UnknownDependency { service, dependency } => crate::text::cat5(
                "Service [",
                service,
                "] depends on unknown service [",
                dependency,
                "]",
            ),
            DockerModuleError::DependencyCycle(t) => crate::text::cat2(
                "Dependency cycle detected among services: ",
                t,
            ),
            DockerModuleError::ServiceStartTimeout(t) => crate::text::cat3(
                "Service [",
                t,
                "] did not reach a running state in time",
            ),
        }
    }
}

/// Every error says what went wrong with the containers, and with which of them.
pub proof fn docker_errors_say_what_happened(text: Seq<char>, other: Seq<char>)
    ensures
        DockerErrorView::ComposeFileDirectoryNotFound(text).description()
            == "Compose file directory not found: "@ + text,
        DockerErrorView::Read(text).description() == "Failed to read the file: "@ + text,
        DockerErrorView::Parse(text).description() == "Failed to parse the yaml content: "@ + text,
        DockerErrorView::Bollard(text).description() == "Bollard(docker) error: "@ + text,
        DockerErrorView::InvalidVolumeSpec(text).description()
            == "Invalid volume specification: "@ + text,
        DockerErrorView::InvalidRestartPolicy(text).description()
            == "Invalid restart policy: "@ + text,
        DockerErrorView::InvalidCommand(text).description() == "Invalid command: "@ + text,
        (DockerErrorView::UnknownDependency { service: text, dependency: other }).description()
            == "Service ["@ + text + "] depends on unknown service ["@ + other + "]"@,
        DockerErrorView::DependencyCycle(text).description()
            == "Dependency cycle detected among services: "@ + text,
        DockerErrorView::ServiceStartTimeout(text).description() == "Service ["@ + text
            + "] did not reach a running state in time"@,
{
}

} // verus!
