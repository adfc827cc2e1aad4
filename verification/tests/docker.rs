use std::collections::HashMap;

use ninoverse::docker::boot::{Boot, BootAction, BootEvent, CallError};
use ninoverse::docker::command::{argv_from_words, resolve_command};
use ninoverse::docker::container::plan_container;
use ninoverse::docker::definitions::{
    ComposeFile, DependencyCondition, DependsOn, DependsOnEntry, DockerModuleError, EnvFile,
    Environment, EnvironmentValue, LongVolumeSpec, MountType, NetworkConfig, ResolvedMount,
    RestartPolicyNameEnum, ServiceConfig, VolumeConfig, VolumeSpec,
};
use ninoverse::docker::environment::{env_file_paths, parse_env_file_content, resolve_environment};
use ninoverse::docker::graph::validate_dependency_graph;
use ninoverse::docker::inspect::{
    check_completed, check_healthy, check_launched, ContainerState, ContainerStatus, Health,
    HealthStatus, Verdict, DEPENDENCY_WAIT_MAX_ATTEMPTS,
};
use ninoverse::docker::load::{
    find_docker_definitions, is_compose_file, load_service, ComposeSource,
};
use ninoverse::docker::paths::{is_host_path, join_path, resolve_host_path};
use ninoverse::docker::resources::{
    create_docker_networks, create_docker_volumes, stop_and_cleanup_container, stop_signal,
    CleanupAction, CleanupPhase, CreationAction, STOP_GRACE_SECS,
};
use ninoverse::docker::startup::{
    names_distinct, start_docker_container, startup_result, ServiceTask, StartupEvent, TaskAction,
    TaskEvent,
};
use ninoverse::docker::volumes::{
    build_bollard_mount, resolve_long_volume, resolve_pull_tag, resolve_restart_policy,
    resolve_short_volume, resolve_volume_spec,
};

fn text_of(value: Option<&serde_yaml::Value>) -> Option<String> {
    value.and_then(|value| value.as_str()).map(|text| text.to_string())
}

fn texts_of(value: Option<&serde_yaml::Value>) -> Option<Vec<String>> {
    value.and_then(|value| value.as_sequence()).map(|items| {
        items
            .iter()
            .map(|item| item.as_str().expect("a text").to_string())
            .collect()
    })
}

fn condition_of(entry: &serde_yaml::Value) -> DependencyCondition {
    match entry.get("condition") {
        None => DependencyCondition::default(),
        Some(condition) => match condition.as_str() {
            Some("service_started") => DependencyCondition::ServiceStarted,
            Some("service_healthy") => DependencyCondition::ServiceHealthy,
            Some("service_completed_successfully") => {
                DependencyCondition::ServiceCompletedSuccessfully
            }
            other => panic!("unknown condition {:?}", other),
        },
    }
}

fn depends_on_of(value: Option<&serde_yaml::Value>) -> Option<DependsOn> {
    let value = value?;
    if let Some(names) = texts_of(Some(value)) {
        return Some(DependsOn::List(names));
    }
    let entries = value.as_mapping().expect("a list or a mapping");
    Some(DependsOn::Mapping(
        entries
            .iter()
            .map(|(name, entry)| {
                (
                    name.as_str().expect("a name").to_string(),
                    DependsOnEntry { condition: condition_of(entry) },
                )
            })
            .collect(),
    ))
}

fn service_from_yaml(yaml: &str) -> ServiceConfig {
    let value: serde_yaml::Value = serde_yaml::from_str(yaml).expect("valid service yaml");
    ServiceConfig {
        image: text_of(value.get("image")),
        ports: texts_of(value.get("ports")),
        networks: texts_of(value.get("networks")),
        volumes: texts_of(value.get("volumes"))
            .map(|list| list.into_iter().map(VolumeSpec::Short).collect()),
        mounts: Vec::new(),
        environment: texts_of(value.get("environment")).map(Environment::List),
        env_file: texts_of(value.get("env_file")).map(EnvFile::Many),
        env_file_contents: Vec::new(),
        env: Vec::new(),
        container_name: text_of(value.get("container_name")),
        command: text_of(value.get("command")),
        command_argv: Vec::new(),
        user: text_of(value.get("user")),
        depends_on: depends_on_of(value.get("depends_on")),
        restart: text_of(value.get("restart")),
        restart_policy: None,
    }
}

fn services(specs: &[(&str, &str)]) -> Vec<(String, ServiceConfig)> {
    specs
        .iter()
        .map(|(name, yaml)| (name.to_string(), service_from_yaml(yaml)))
        .collect()
}

#[test]
fn depends_on_list_form_defaults_to_started() {
    let service = service_from_yaml("image: busybox\ndepends_on:\n  - db\n  - redis\n");
    let deps: HashMap<String, DependencyCondition> = service.dependencies().into_iter().collect();
    assert_eq!(deps.len(), 2);
    assert_eq!(deps["db"], DependencyCondition::ServiceStarted);
    assert_eq!(deps["redis"], DependencyCondition::ServiceStarted);
}

#[test]
fn depends_on_map_form_reads_conditions() {
    let service = service_from_yaml(
        "image: busybox\n\
         depends_on:\n\
         \x20 db:\n\
         \x20   condition: service_healthy\n\
         \x20 init:\n\
         \x20   condition: service_completed_successfully\n",
    );
    let deps: HashMap<String, DependencyCondition> = service.dependencies().into_iter().collect();
    assert_eq!(deps["db"], DependencyCondition::ServiceHealthy);
    assert_eq!(
        deps["init"],
        DependencyCondition::ServiceCompletedSuccessfully
    );
}

#[test]
fn depends_on_map_form_defaults_missing_condition() {
    let service = service_from_yaml("image: busybox\ndepends_on:\n  db: {}\n");
    let deps: HashMap<String, DependencyCondition> = service.dependencies().into_iter().collect();
    assert_eq!(deps["db"], DependencyCondition::ServiceStarted);
}

#[test]
fn no_depends_on_yields_no_dependencies() {
    let service = service_from_yaml("image: busybox\n");
    assert!(service.dependencies().is_empty());
}

#[test]
fn validate_accepts_valid_dag() {
    let services = services(&[
        ("db", "image: postgres\n"),
        ("app", "image: busybox\ndepends_on:\n  - db\n"),
    ]);
    assert!(validate_dependency_graph(&services).is_ok());
}

#[test]
fn validate_rejects_unknown_dependency() {
    let services = services(&[("app", "image: busybox\ndepends_on:\n  - missing\n")]);
    match validate_dependency_graph(&services) {
        Err(DockerModuleError::UnknownDependency {
            service,
            dependency,
        }) => {
            assert_eq!(service, "app");
            assert_eq!(dependency, "missing");
        }
        other => panic!("expected UnknownDependency, got {:?}", other),
    }
}

#[test]
fn validate_rejects_self_cycle() {
    let services = services(&[("a", "image: busybox\ndepends_on:\n  - a\n")]);
    assert!(matches!(
        validate_dependency_graph(&services),
        Err(DockerModuleError::DependencyCycle(_))
    ));
}

#[test]
fn validate_rejects_direct_cycle() {
    let services = services(&[
        ("a", "image: busybox\ndepends_on:\n  - b\n"),
        ("b", "image: busybox\ndepends_on:\n  - a\n"),
    ]);
    assert!(matches!(
        validate_dependency_graph(&services),
        Err(DockerModuleError::DependencyCycle(_))
    ));
}

#[test]
fn validate_rejects_multi_node_cycle() {
    let services = services(&[
        ("a", "image: busybox\ndepends_on:\n  - b\n"),
        ("b", "image: busybox\ndepends_on:\n  - c\n"),
        ("c", "image: busybox\ndepends_on:\n  - a\n"),
    ]);
    assert!(matches!(
        validate_dependency_graph(&services),
        Err(DockerModuleError::DependencyCycle(_))
    ));
}

#[test]
fn unquoted_restart_no_parses_as_string_not_bool() {
    // Bare `no` stays a string. Guards against the classic compose `restart: no`
    // gotcha.
    let service = service_from_yaml("image: busybox\nrestart: no\n");
    assert_eq!(service.restart.as_deref(), Some("no"));
}

#[test]
fn restart_policy_defaults_to_no_when_absent() {
    let policy = resolve_restart_policy(None).expect("default policy");
    assert_eq!(policy.name, Some(RestartPolicyNameEnum::NO));
    assert_eq!(policy.maximum_retry_count, None);
}

#[test]
fn restart_policy_maps_named_policies() {
    let cases = [
        ("no", RestartPolicyNameEnum::NO),
        ("always", RestartPolicyNameEnum::ALWAYS),
        ("unless-stopped", RestartPolicyNameEnum::UNLESS_STOPPED),
        ("on-failure", RestartPolicyNameEnum::ON_FAILURE),
    ];
    for (input, expected) in cases {
        let policy = resolve_restart_policy(Some(input)).expect("valid policy");
        assert_eq!(policy.name, Some(expected), "for input [{}]", input);
        assert_eq!(policy.maximum_retry_count, None, "for input [{}]", input);
    }
}

#[test]
fn restart_policy_reads_on_failure_retry_count() {
    let policy = resolve_restart_policy(Some("on-failure:5")).expect("valid policy");
    assert_eq!(policy.name, Some(RestartPolicyNameEnum::ON_FAILURE));
    assert_eq!(policy.maximum_retry_count, Some(5));
}

#[test]
fn restart_policy_rejects_invalid_values() {
    for input in ["sometimes", "on-failure:abc", "on-failure:-1", ""] {
        assert!(
            matches!(
                resolve_restart_policy(Some(input)),
                Err(DockerModuleError::InvalidRestartPolicy(_))
            ),
            "expected [{}] to be rejected",
            input
        );
    }
}

#[test]
fn cycle_is_reported_from_its_entry_on() {
    let services = services(&[
        ("start", "image: busybox\ndepends_on:\n  - a\n"),
        ("a", "image: busybox\ndepends_on:\n  - b\n"),
        ("b", "image: busybox\ndepends_on:\n  - a\n"),
    ]);
    match validate_dependency_graph(&services) {
        Err(error) => assert_eq!(
            error.message(),
            "Dependency cycle detected among services: a -> b -> a"
        ),
        Ok(_) => panic!("expected a cycle"),
    }
}

#[test]
fn docker_errors_describe_themselves() {
    let cases = [
        (
            DockerModuleError::ComposeFileDirectoryNotFound("/x".to_string()),
            "Compose file directory not found: /x",
        ),
        (DockerModuleError::Read("no".to_string()), "Failed to read the file: no"),
        (
            DockerModuleError::Parse("bad".to_string()),
            "Failed to parse the yaml content: bad",
        ),
        (DockerModuleError::Bollard("down".to_string()), "Bollard(docker) error: down"),
        (
            DockerModuleError::InvalidVolumeSpec(":".to_string()),
            "Invalid volume specification: :",
        ),
        (
            DockerModuleError::InvalidRestartPolicy("x".to_string()),
            "Invalid restart policy: x",
        ),
        (DockerModuleError::InvalidCommand("a 'b".to_string()), "Invalid command: a 'b"),
        (
            DockerModuleError::UnknownDependency {
                service: "a".to_string(),
                dependency: "b".to_string(),
            },
            "Service [a] depends on unknown service [b]",
        ),
        (
            DockerModuleError::ServiceStartTimeout("a".to_string()),
            "Service [a] did not reach a running state in time",
        ),
    ];
    for (error, expected) in cases {
        assert_eq!(error.message(), expected);
    }
}

#[test]
fn pull_tag_is_added_only_where_there_is_none() {
    assert_eq!(resolve_pull_tag("busybox"), Some("latest".to_string()));
    assert_eq!(resolve_pull_tag("busybox:1.36"), None);
    assert_eq!(resolve_pull_tag("busybox@sha256:abc"), None);
    assert_eq!(
        resolve_pull_tag("registry:5000/team/app"),
        Some("latest".to_string())
    );
}

#[test]
fn host_paths_are_told_from_volume_names() {
    for source in ["/data", "./data", "../data", "~", "~/data"] {
        assert!(is_host_path(source), "{}", source);
    }
    for source in ["data", ".data", "~data", ""] {
        assert!(!is_host_path(source), "{}", source);
    }
}

#[test]
fn host_paths_resolve_like_std_paths() {
    let cases = [
        ("/a/./b//c/", "/srv", "/a/b/c"),
        ("./x/../y", "/srv/app", "/srv/app/y"),
        ("../x", "/srv/app", "/srv/x"),
        ("/..", "/srv", "/.."),
        ("/../..", "/srv", "/"),
        ("~", "/srv", "/home/nino"),
        ("~/x", "/srv", "/home/nino/x"),
        ("../../..", "a/b", ".."),
    ];
    for (source, compose_dir, expected) in cases {
        assert_eq!(
            resolve_host_path(source, compose_dir, Some("/home/nino")).unwrap(),
            expected,
            "{} in {}",
            source,
            compose_dir
        );
    }
    match resolve_host_path("~/x", "/srv", None) {
        Err(error) => assert_eq!(
            error.message(),
            "Invalid volume specification: cannot expand [~/x]: HOME is not set"
        ),
        Ok(path) => panic!("resolved to {}", path),
    }
}

/// What std's paths make of the same parts.
fn std_resolution(source: &str, compose_dir: &str) -> String {
    let path = std::path::PathBuf::from(source);
    let absolute = if path.is_absolute() {
        path
    } else {
        std::path::Path::new(compose_dir).join(path)
    };
    let mut normalized = std::path::PathBuf::new();
    for component in absolute.components() {
        match component {
            std::path::Component::CurDir => {}
            std::path::Component::ParentDir => {
                if !normalized.pop() {
                    normalized.push("..");
                }
            }
            other => normalized.push(other.as_os_str()),
        }
    }
    normalized.to_string_lossy().into_owned()
}

#[test]
fn path_resolution_agrees_with_std() {
    let sources = [
        "", ".", "..", "/", "//", "/..", "/../a", "a", "a/", "a//b", "./a", "../a", "../../a",
        "a/../..", "a/./b/..", "/a/b/../../..", "...", "./.", "a/..", "/.", ".a/..b",
    ];
    let dirs = ["/srv/app", "srv", "", ".", "/", "../x", "a/b/"];
    for source in sources {
        for dir in dirs {
            assert_eq!(
                resolve_host_path(source, dir, None).unwrap(),
                std_resolution(source, dir),
                "[{}] in [{}]",
                source,
                dir
            );
            assert_eq!(
                join_path(dir, source),
                std::path::Path::new(dir).join(source).to_string_lossy(),
                "[{}] joined to [{}]",
                source,
                dir
            );
        }
    }
}

#[test]
fn resolved_path_resolves_to_itself() {
    for source in ["./x/../y", "/a/b/", "../../.."] {
        let once = resolve_host_path(source, "/srv/app", None).unwrap();
        assert_eq!(resolve_host_path(&once, "/other", None).unwrap(), once);
    }
}

#[test]
fn short_volumes_resolve() {
    let named = resolve_short_volume("data:/var/lib:ro", "/srv", None).unwrap();
    assert_eq!(named.mount_type, MountType::VOLUME);
    assert_eq!(named.source.as_deref(), Some("data"));
    assert_eq!(named.target, "/var/lib");
    assert!(named.read_only);

    let bind = resolve_short_volume("./conf:/etc/conf:ro,rw,z", "/srv", None).unwrap();
    assert_eq!(bind.mount_type, MountType::BIND);
    assert_eq!(bind.source.as_deref(), Some("/srv/conf"));
    assert!(!bind.read_only);

    let anonymous = resolve_short_volume("/var/lib", "/srv", None).unwrap();
    assert_eq!(anonymous.mount_type, MountType::VOLUME);
    assert_eq!(anonymous.source, None);
    assert_eq!(anonymous.target, "/var/lib");

    for refused in ["", ":/x", "data:", "data::ro"] {
        match resolve_short_volume(refused, "/srv", None) {
            Err(DockerModuleError::InvalidVolumeSpec(text)) => assert_eq!(text, refused),
            _ => panic!("[{}] was not refused", refused),
        }
    }
}

fn long_volume(mount_type: &str, source: Option<&str>) -> LongVolumeSpec {
    LongVolumeSpec {
        mount_type: mount_type.to_string(),
        source: source.map(|text| text.to_string()),
        target: "/t".to_string(),
        read_only: true,
    }
}

#[test]
fn long_volumes_resolve() {
    let bind = resolve_long_volume(long_volume("bind", Some("x")), "/srv", None).unwrap();
    assert_eq!(bind.mount_type, MountType::BIND);
    assert_eq!(bind.source.as_deref(), Some("/srv/x"));
    assert!(bind.read_only);

    let named = resolve_long_volume(long_volume("volume", Some("data")), "/srv", None).unwrap();
    assert_eq!(named.source.as_deref(), Some("data"));

    let tmpfs = resolve_long_volume(long_volume("tmpfs", Some("x")), "/srv", None).unwrap();
    assert_eq!(tmpfs.mount_type, MountType::TMPFS);
    assert_eq!(tmpfs.source, None);

    let pipe = resolve_long_volume(long_volume("npipe", None), "/srv", None).unwrap();
    assert_eq!(pipe.mount_type, MountType::NPIPE);

    match resolve_long_volume(long_volume("bind", None), "/srv", None) {
        Err(error) => assert_eq!(
            error.message(),
            "Invalid volume specification: bind mount for target [/t] is missing a source"
        ),
        Ok(_) => panic!("a bind mount without a source"),
    }
    match resolve_volume_spec(VolumeSpec::Long(long_volume("disk", None)), "/srv", None) {
        Err(error) => assert_eq!(
            error.message(),
            "Invalid volume specification: unsupported mount type [disk] for target [/t]"
        ),
        Ok(_) => panic!("an unknown mount type"),
    }
}

#[test]
fn bind_mounts_create_their_mountpoint() {
    let mut mount = ResolvedMount {
        mount_type: MountType::BIND,
        source: Some("/a".to_string()),
        target: "/b".to_string(),
        read_only: false,
    };
    let bind = build_bollard_mount(&mount);
    assert_eq!(bind.typ, Some(MountType::BIND));
    assert_eq!(bind.source.as_deref(), Some("/a"));
    assert_eq!(bind.target.as_deref(), Some("/b"));
    assert_eq!(bind.read_only, Some(false));
    assert_eq!(
        bind.bind_options.and_then(|options| options.create_mountpoint),
        Some(true)
    );
    mount.mount_type = MountType::VOLUME;
    assert!(build_bollard_mount(&mount).bind_options.is_none());
}

#[test]
fn commands_are_split_like_a_shell_does() {
    assert_eq!(
        resolve_command(Some("run --name 'two words' a\\ b")).unwrap(),
        vec!["run", "--name", "two words", "a b"]
    );
    assert!(resolve_command(None).unwrap().is_empty());
    assert!(resolve_command(Some("")).unwrap().is_empty());
    match resolve_command(Some("run 'open")) {
        Err(DockerModuleError::InvalidCommand(command)) => assert_eq!(command, "run 'open"),
        _ => panic!("an open quote was accepted"),
    }
    assert!(argv_from_words("x", None).is_err());
    assert_eq!(
        argv_from_words("x", Some(vec!["y".to_string()])).unwrap(),
        vec!["y"]
    );
}

#[test]
fn env_files_are_read_line_by_line() {
    let entries = parse_env_file_content("# note\n\nA=1\r\n B = two words \nBARE\nQ=\"x\"\nE=a=b\n");
    let expected = vec![
        ("A", Some("1")),
        ("B", Some("two words")),
        ("BARE", None),
        ("Q", Some("\"x\"")),
        ("E", Some("a=b")),
    ];
    assert_eq!(entries.len(), expected.len());
    for (entry, wanted) in entries.iter().zip(expected) {
        assert_eq!((entry.0.as_str(), entry.1.as_deref()), wanted);
    }
}

#[test]
fn inline_environment_stands_above_env_files() {
    let environment = Some(Environment::Mapping(vec![
        ("A".to_string(), EnvironmentValue::Text("inline".to_string())),
        ("N".to_string(), EnvironmentValue::Integer(-3)),
        ("T".to_string(), EnvironmentValue::Bool(true)),
        ("H".to_string(), EnvironmentValue::Null),
        ("GONE".to_string(), EnvironmentValue::Null),
    ]));
    let files = vec!["A=one\nB=one\n".to_string(), "B=two\nH=file\n".to_string()];
    let host = vec![("H".to_string(), "host".to_string())];
    assert_eq!(
        resolve_environment(&environment, &files, &host),
        vec!["B=two", "A=inline", "N=-3", "T=true", "H=host"]
    );
    let list = Some(Environment::List(vec![
        "K=v=w".to_string(),
        "H".to_string(),
        "K=last".to_string(),
    ]));
    assert_eq!(
        resolve_environment(&list, &Vec::new(), &host),
        vec!["H=host", "K=last"]
    );
}

#[test]
fn env_files_stand_beside_the_compose_file() {
    assert_eq!(
        env_file_paths(&Some(EnvFile::One("./app.env".to_string())), "/srv", None).unwrap(),
        vec!["/srv/app.env"]
    );
    let many = Some(EnvFile::Many(vec!["a.env".to_string(), "/b.env".to_string()]));
    assert_eq!(
        env_file_paths(&many, "/srv", None).unwrap(),
        vec!["/srv/a.env", "/b.env"]
    );
    assert!(env_file_paths(&None, "/srv", None).unwrap().is_empty());
    assert!(env_file_paths(&Some(EnvFile::One("~/x".to_string())), "/srv", None).is_err());
}

#[test]
fn compose_files_are_known_by_their_extension() {
    for name in ["a.yml", "b.yaml", "x.y.yml"] {
        assert!(is_compose_file(name), "{}", name);
    }
    for name in [".yml", "yml", "a.YML", "a.yml.bak", "a.", ""] {
        assert!(!is_compose_file(name), "{}", name);
    }
}

#[test]
fn loading_a_service_fills_it_in() {
    let config = service_from_yaml(
        "image: app\nvolumes:\n  - ./d:/d\nenvironment:\n  - K=v\ncommand: run it\nrestart: always\n",
    );
    let loaded = load_service(config, "/srv", None, &Vec::new()).unwrap();
    assert_eq!(loaded.mounts.len(), 1);
    assert_eq!(loaded.mounts[0].source.as_deref(), Some("/srv/d"));
    assert!(loaded.volumes.is_none());
    assert_eq!(loaded.env, vec!["K=v"]);
    assert_eq!(loaded.command_argv, vec!["run", "it"]);
    assert_eq!(
        loaded.restart_policy.and_then(|policy| policy.name),
        Some(RestartPolicyNameEnum::ALWAYS)
    );
    let refused = service_from_yaml("image: app\ncommand: run 'it\nrestart: maybe\n");
    assert!(matches!(
        load_service(refused, "/srv", None, &Vec::new()),
        Err(DockerModuleError::InvalidRestartPolicy(_))
    ));
}

fn source(dir: &str, services: Vec<(String, ServiceConfig)>) -> ComposeSource {
    ComposeSource {
        compose_dir: dir.to_string(),
        file: ComposeFile {
            services: Some(services),
            networks: Some(vec![("net".to_string(), None)]),
            volumes: None,
        },
    }
}

#[test]
fn definitions_of_all_files_are_collected() {
    let sources = vec![
        source("/one", services(&[("a", "image: a\nvolumes:\n  - ./x:/x\n")])),
        source("/two", services(&[("b", "image: b\nvolumes:\n  - ./x:/x\n")])),
    ];
    let definitions = find_docker_definitions(sources, None, &Vec::new()).unwrap();
    assert_eq!(definitions.services.len(), 2);
    assert_eq!(definitions.services[1].0, "b");
    assert_eq!(
        definitions.services[1].1.mounts[0].source.as_deref(),
        Some("/two/x")
    );
    assert_eq!(definitions.networks.len(), 2);
    assert!(definitions.volumes.is_empty());

    let broken = vec![
        source("/one", services(&[("a", "image: a\nrestart: maybe\n")])),
        source("/two", services(&[("b", "image: b\nvolumes:\n  - ':'\n")])),
    ];
    assert!(matches!(
        find_docker_definitions(broken, None, &Vec::new()),
        Err(DockerModuleError::InvalidRestartPolicy(_))
    ));
}

#[test]
fn container_plan_carries_the_service() {
    let config = service_from_yaml(
        "image: app\nports:\n  - '80:8080'\n  - '127.0.0.1:81:8081'\n  - '82:8080'\n  - '9000'\nnetworks:\n  - n\n  - n\nuser: root\n",
    );
    let plan = plan_container("app", &config);
    assert_eq!(plan.name, "app");
    assert_eq!(plan.image.as_deref(), Some("app"));
    assert!(plan.mounts.is_none());
    assert_eq!(plan.networks, vec!["n"]);
    assert_eq!(plan.user, "root");
    assert!(plan.env.is_empty());
    assert!(plan.cmd.is_empty());
    let ports: HashMap<String, (String, String)> = plan
        .port_bindings
        .unwrap()
        .into_iter()
        .map(|(port, binding)| (port, (binding.host_ip, binding.host_port)))
        .collect();
    assert_eq!(ports.len(), 2);
    assert_eq!(ports["8080/tcp"], ("0.0.0.0".to_string(), "82".to_string()));
    assert_eq!(ports["8081/tcp"], ("127.0.0.1".to_string(), "81".to_string()));

    let bare = plan_container("x", &service_from_yaml("container_name: other\n"));
    assert_eq!(bare.name, "x");
    assert!(bare.port_bindings.is_none());
    assert_eq!(bare.user, "");
}

fn state(status: Option<ContainerStatus>, running: Option<bool>) -> ContainerState {
    ContainerState { status, running, exit_code: None, health: None }
}

#[test]
fn inspections_are_judged() {
    let mut healthy = state(None, Some(false));
    healthy.health = Some(Health { status: Some(HealthStatus::Healthy) });
    assert!(matches!(check_healthy(&Ok(Some(healthy))), Verdict::Ready));
    healthy.health = Some(Health { status: Some(HealthStatus::Unhealthy) });
    match check_healthy(&Ok(Some(healthy))) {
        Verdict::Failed(reason) => assert_eq!(reason, "became unhealthy"),
        _ => panic!("an unhealthy container"),
    }
    healthy.health = Some(Health { status: Some(HealthStatus::Starting) });
    assert!(matches!(check_healthy(&Ok(Some(healthy))), Verdict::Pending));
    assert!(matches!(check_healthy(&Ok(Some(state(None, Some(true))))), Verdict::Ready));
    match check_healthy(&Err("gone".to_string())) {
        Verdict::Failed(reason) => assert_eq!(reason, "could not be inspected: gone"),
        _ => panic!("no inspection"),
    }

    let mut exited = state(Some(ContainerStatus::Exited), None);
    match check_completed(&Ok(Some(exited))) {
        Verdict::Failed(reason) => assert_eq!(reason, "exited with code -1"),
        _ => panic!("no exit code"),
    }
    exited.exit_code = Some(0);
    assert!(matches!(check_completed(&Ok(Some(exited))), Verdict::Ready));
    assert!(matches!(check_completed(&Ok(Some(state(None, Some(true))))), Verdict::Pending));

    assert!(matches!(check_launched(&Ok(Some(exited))), Verdict::Ready));
    assert!(matches!(check_launched(&Ok(Some(state(None, Some(true))))), Verdict::Ready));
    assert!(matches!(check_launched(&Ok(None)), Verdict::Pending));
}

fn refusal(status: u16) -> CallError {
    CallError { status: Some(status), message: format!("status {}", status) }
}

#[test]
fn boot_takes_an_existing_container_as_it_is() {
    let (mut boot, action) = Boot::begin("app", &service_from_yaml("image: app\n"));
    match action {
        BootAction::PullImage { image, tag } => {
            assert_eq!(image, "app");
            assert_eq!(tag.as_deref(), Some("latest"));
        }
        _ => panic!("no pull"),
    }
    assert!(matches!(boot.step(BootEvent::Pulled(Ok(()))), BootAction::CreateContainer));
    assert!(matches!(
        boot.step(BootEvent::Created(Err(refusal(409)))),
        BootAction::StartContainer
    ));
    assert!(matches!(
        boot.step(BootEvent::Started(Err(refusal(409)))),
        BootAction::Finish(Ok(()))
    ));
}

#[test]
fn boot_reports_what_went_wrong() {
    let (mut boot, action) = Boot::begin("app", &service_from_yaml("command: x\n"));
    assert!(matches!(action, BootAction::CreateContainer));
    match boot.step(BootEvent::Created(Err(refusal(500)))) {
        BootAction::Finish(Err(error)) => {
            assert_eq!(error.message(), "Bollard(docker) error: status 500")
        }
        _ => panic!("the refusal was lost"),
    }
}

#[test]
fn boot_gives_up_after_the_last_attempt() {
    let (mut boot, _) = Boot::begin("app", &service_from_yaml("command: x\n"));
    boot.step(BootEvent::Created(Ok(())));
    let mut action = boot.step(BootEvent::Started(Ok(())));
    let mut inspections = 0;
    loop {
        match action {
            BootAction::InspectContainer => {
                inspections += 1;
                action = boot.step(BootEvent::Inspected(Ok(None)));
            }
            BootAction::Sleep => action = boot.step(BootEvent::Slept),
            BootAction::Finish(result) => {
                assert!(matches!(result, Err(DockerModuleError::ServiceStartTimeout(_))));
                break;
            }
            _ => panic!("an unexpected action"),
        }
    }
    assert_eq!(inspections, DEPENDENCY_WAIT_MAX_ATTEMPTS);
}

#[test]
fn service_waits_for_its_dependencies() {
    let config = service_from_yaml(
        "image: app\ndepends_on:\n  a:\n    condition: service_started\n  b:\n    condition: service_healthy\n",
    );
    let (mut task, action) = ServiceTask::begin("app", &config);
    match action {
        TaskAction::AwaitDependency { name } => assert_eq!(name, "a"),
        _ => panic!("no wait"),
    }
    match task.step(TaskEvent::DependencyStarted) {
        TaskAction::AwaitDependency { name } => assert_eq!(name, "b"),
        _ => panic!("no second wait"),
    }
    match task.step(TaskEvent::DependencyStarted) {
        TaskAction::InspectDependency { name } => assert_eq!(name, "b"),
        _ => panic!("no inspection"),
    }
    assert!(matches!(task.step(TaskEvent::Inspected(Ok(None))), TaskAction::Sleep));
    assert!(matches!(
        task.step(TaskEvent::Slept),
        TaskAction::InspectDependency { .. }
    ));
    assert!(matches!(
        task.step(TaskEvent::Inspected(Ok(Some(state(None, Some(true)))))),
        TaskAction::BootService
    ));
    assert!(matches!(
        task.step(TaskEvent::BootFinished(Ok(()))),
        TaskAction::PublishStarted
    ));
    assert!(matches!(task.step(TaskEvent::BarrierPassed), TaskAction::AwaitShutdown));
    assert!(matches!(task.step(TaskEvent::Shutdown), TaskAction::StopContainer));
    assert!(matches!(task.step(TaskEvent::Stopped), TaskAction::Finish));
}

#[test]
fn service_gives_up_without_its_dependency() {
    let config = service_from_yaml("image: app\ndepends_on:\n  - a\n");
    let (mut task, _) = ServiceTask::begin("app", &config);
    match task.step(TaskEvent::DependencyLost) {
        TaskAction::GiveUp { dependency, reason } => {
            assert_eq!(dependency, "a");
            assert_eq!(reason, "failed to start");
        }
        _ => panic!("no end"),
    }
}

#[test]
fn shutdown_before_the_boot_touches_no_container() {
    let config = service_from_yaml("image: app\ndepends_on:\n  - a\n");
    let (mut task, _) = ServiceTask::begin("app", &config);
    assert!(matches!(task.step(TaskEvent::Shutdown), TaskAction::Finish));
    let (mut booting, _) = ServiceTask::begin("app", &service_from_yaml("image: app\n"));
    assert!(matches!(booting.step(TaskEvent::Shutdown), TaskAction::StopContainer));
}

#[test]
fn startup_begins_one_task_for_each_service() {
    let good = services(&[
        ("db", "image: postgres\n"),
        ("app", "image: busybox\ndepends_on:\n  - db\n"),
    ]);
    assert!(names_distinct(&good));
    let tasks = start_docker_container(&good).unwrap();
    assert_eq!(tasks.len(), 2);
    assert!(matches!(tasks[0].1, TaskAction::BootService));
    assert!(matches!(tasks[1].1, TaskAction::AwaitDependency { .. }));
    let bad = services(&[("app", "image: busybox\ndepends_on:\n  - app\n")]);
    assert!(start_docker_container(&bad).is_err());
    assert!(!names_distinct(&services(&[("a", "image: x\n"), ("a", "image: y\n")])));
    assert!(startup_result(StartupEvent::AllStarted).is_ok());
    assert!(startup_result(StartupEvent::Shutdown).is_ok());
    assert!(matches!(
        startup_result(StartupEvent::Failed(DockerModuleError::Bollard("x".to_string()))),
        Err(DockerModuleError::Bollard(_))
    ));
}

#[test]
fn networks_tolerate_any_refusal() {
    let (mut creation, action) = create_docker_networks(vec![
        ("a".to_string(), Some(NetworkConfig { driver: Some("bridge".to_string()) })),
        ("b".to_string(), None),
    ]);
    assert!(matches!(action, CreationAction::Create { index: 0 }));
    assert_eq!(creation.requests[0].name, "a");
    assert_eq!(creation.requests[0].driver.as_deref(), Some("bridge"));
    assert_eq!(creation.requests[1].driver, None);
    assert!(matches!(
        creation.step(Err(refusal(500))),
        CreationAction::Create { index: 1 }
    ));
    let unreachable = CallError { status: None, message: "down".to_string() };
    assert!(matches!(
        creation.step(Err(unreachable)),
        CreationAction::Finish(Err(DockerModuleError::Bollard(_)))
    ));
}

#[test]
fn volumes_tolerate_conflicts_only() {
    let list = || vec![("v".to_string(), Some(VolumeConfig { driver: None }))];
    let (mut creation, _) = create_docker_volumes(list());
    assert!(matches!(
        creation.step(Err(refusal(409))),
        CreationAction::Finish(Ok(()))
    ));
    let (mut creation, _) = create_docker_volumes(list());
    assert!(matches!(
        creation.step(Err(refusal(500))),
        CreationAction::Finish(Err(_))
    ));
    let (_, action) = create_docker_volumes(Vec::new());
    assert!(matches!(action, CreationAction::Finish(Ok(()))));
}

#[test]
fn containers_are_stopped_before_they_are_removed() {
    assert_eq!(
        stop_and_cleanup_container(CleanupPhase::Inspect, true, true),
        (CleanupPhase::Stop, CleanupAction::StopContainer)
    );
    assert_eq!(
        stop_and_cleanup_container(CleanupPhase::Stop, true, true),
        (CleanupPhase::Remove, CleanupAction::RemoveContainer)
    );
    for (phase, succeeded, remove) in [
        (CleanupPhase::Inspect, false, true),
        (CleanupPhase::Stop, true, false),
        (CleanupPhase::Stop, false, true),
        (CleanupPhase::Remove, true, true),
    ] {
        assert_eq!(
            stop_and_cleanup_container(phase, succeeded, remove),
            (CleanupPhase::Done, CleanupAction::Finish)
        );
    }
    assert_eq!(stop_signal(), "SIGTERM");
    assert_eq!(STOP_GRACE_SECS, 10);
}
