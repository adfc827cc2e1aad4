use ninoverse::configuration::{Person, Service, ServiceProtectionMode, ServicesConfiguration};
use ninoverse::exec::{ExecError, ExecOutcome, Output};
use ninoverse::init_kanidm_apisix::error::KanidmApisixError;
use ninoverse::init_kanidm_apisix::secrets::{
    random_hex, SecretStore, SessionSource, SESSION_SECRET_BYTES,
};
use ninoverse::init_kanidm_apisix::stages::{next_phase, run_all, InitPhase, Reach};
use ninoverse::init_kanidm_apisix::summary::{
    native_summary, print_native_summary, print_person_summary,
};
use ninoverse::kanidm::error::KanidmError;
use ninoverse::kanidm::operations::KanidmAction;
use ninoverse::kanidm::output::{found_entry, group_members, read_secret, reset_url};
use ninoverse::kanidm::provision::{Kanidm, ProvisionedPerson};
use ninoverse::secret_map::SecretMap;

fn configuration() -> ServicesConfiguration {
    ServicesConfiguration {
        domain: "example.test".to_string(),
        kanidm_origin: "https://auth.example.test".to_string(),
        kanidm_cli_container: "kanidm-cli".to_string(),
        kanidm_admin: "idm_admin".to_string(),
        curl_container: "apisix-curl".to_string(),
        apisix_admin_url: "http://apisix:9180".to_string(),
        secrets_dir: "./secrets".to_string(),
        set_userinfo_header: true,
        tls_verify: true,
        services: Vec::new(),
        persons: Vec::new(),
    }
}

fn service(client_id: &str, mode: ServiceProtectionMode) -> Service {
    Service {
        client_id: client_id.to_string(),
        display_name: "Thing".to_string(),
        subdomain: "thing".to_string(),
        uris: vec!["/*".to_string()],
        priority: 0,
        upstream: Some("thing:8080".to_string()),
        group: "users".to_string(),
        mode,
        native_redirect_url: None,
    }
}

fn person(name: &str) -> Person {
    Person {
        name: name.to_string(),
        display_name: "Some Body".to_string(),
        mail: Some("s@b".to_string()),
        legal_name: None,
        groups: vec!["users".to_string()],
    }
}

fn said(code: i64, stdout: &str) -> Output {
    Output { code, stdout: stdout.to_string(), stderr: " oops \n".to_string() }
}

fn ok(stdout: &str) -> ExecOutcome {
    Ok(said(0, stdout))
}

fn command(action: KanidmAction) -> String {
    match action {
        KanidmAction::Run(argv) => argv.join(" "),
        KanidmAction::Finish(_) => panic!("the run is over"),
    }
}

#[test]
fn entries_are_found_by_their_name_line() {
    assert!(found_entry(&said(0, "uuid: 1\n  name: users \n"), "users"));
    assert!(!found_entry(&said(0, "name: users2\n"), "users"));
    assert!(!found_entry(&said(1, "name: users\n"), "users"));
    assert!(!found_entry(&said(0, "No matching entries"), "users"));
}

#[test]
fn members_are_the_quoted_lines() {
    let shown = "[\n\"ann@example.test\",\n  \"bob\"\nplain\n\"@x\"\n";
    assert_eq!(group_members(&said(0, shown)), vec!["ann", "bob"]);
    assert!(group_members(&said(2, shown)).is_empty());
}

#[test]
fn reset_links_point_to_the_origin() {
    assert_eq!(
        reset_url("https://auth", "go to http://localhost/ui/reset?token=a-b-c now"),
        "https://auth/ui/reset?token=a-b-c"
    );
    assert_eq!(reset_url("https://auth", "  no link \n"), "no link");
}

#[test]
fn secrets_are_read_without_white_space() {
    assert_eq!(read_secret("a", " ab\ncd\t").ok().as_deref(), Some("abcd"));
    match read_secret("a", " \n") {
        Err(error) => assert_eq!(
            error.message(),
            "KANIDM: empty basic secret returned for 'a'"
        ),
        Ok(_) => panic!("a secret out of nowhere"),
    }
}

#[test]
fn session_is_checked_first() {
    let kanidm = Kanidm::new((), &configuration());
    assert_eq!(
        kanidm.session_probe().join(" "),
        "kanidm system oauth2 list --name idm_admin"
    );
    assert!(kanidm.check_session(ok("")).is_ok());
    match kanidm.check_session(Ok(said(1, ""))) {
        Err(error) => {
            assert_eq!(
                error.message(),
                "KANIDM: no valid session for 'idm_admin'\nrun once, interactively:\n    docker exec -it kanidm-cli kanidm login --name idm_admin"
            );
            assert!(KanidmApisixError::Kanidm(error).is_recoverable_by_operator());
        }
        Ok(_) => panic!("a session out of nowhere"),
    }
    match kanidm.check_session(Err(ExecError::Detached)) {
        Err(error) => {
            assert!(!KanidmApisixError::Kanidm(error).is_recoverable_by_operator())
        }
        Ok(_) => panic!("a session out of nowhere"),
    }
}

#[test]
fn second_run_creates_no_group() {
    let kanidm = Kanidm::new((), &configuration());
    let (mut run, action) = kanidm.ensure_group("users");
    assert_eq!(command(action), "kanidm group get users --name idm_admin");
    assert_eq!(
        command(run.step(ok("nothing"))),
        "kanidm group create users --name idm_admin"
    );
    assert!(matches!(run.step(ok("")), KanidmAction::Finish(Ok(()))));
    assert_eq!(run.acted, vec![true]);

    let (mut run, _) = kanidm.ensure_group("users");
    assert!(matches!(
        run.step(ok("name: users\n")),
        KanidmAction::Finish(Ok(()))
    ));
    assert_eq!(run.acted, vec![false]);
}

#[test]
fn failed_command_stops_the_run() {
    let kanidm = Kanidm::new((), &configuration());
    let (mut run, action) = kanidm.ensure_membership("users", "ann");
    assert_eq!(command(action), "kanidm group get users --name idm_admin");
    assert_eq!(
        command(run.step(ok("name: users"))),
        "kanidm group list-members users --name idm_admin"
    );
    assert_eq!(
        command(run.step(ok("\"bob@x\""))),
        "kanidm group add-members users ann --name idm_admin"
    );
    match run.step(Ok(said(9, ""))) {
        KanidmAction::Finish(Err(error)) => assert_eq!(
            error.message(),
            "KANIDM: cli `group add-members users ann` exited 9: oops"
        ),
        _ => panic!("the failure was lost"),
    }
}

#[test]
fn client_is_provisioned_in_order() {
    let configuration = configuration();
    let kanidm = Kanidm::new((), &configuration);
    let (mut run, action) =
        kanidm.provision_client(&service("app", ServiceProtectionMode::Gate), &configuration);
    let mut commands = vec![command(action)];
    while let KanidmAction::Run(argv) = run.step(ok("")) {
        commands.push(argv.join(" "));
    }
    assert_eq!(
        commands,
        vec![
            "kanidm group get users --name idm_admin",
            "kanidm group create users --name idm_admin",
            "kanidm system oauth2 get app --name idm_admin",
            "kanidm system oauth2 create app Thing https://thing.example.test --name idm_admin",
            "kanidm system oauth2 add-redirect-url app https://thing.example.test/oidc/callback --name idm_admin",
            "kanidm system oauth2 update-scope-map app users openid profile email groups --name idm_admin",
            "kanidm system oauth2 prefer-short-username app --name idm_admin",
        ]
    );
}

#[test]
fn new_person_gets_a_link() {
    let mut configuration = configuration();
    configuration.persons = vec![person("ann"), person("bob")];
    let kanidm = Kanidm::new((), &configuration);
    let (mut state, mut action) = kanidm.provision_persons(&configuration);
    let mut commands = Vec::new();
    loop {
        match action {
            KanidmAction::Run(argv) => {
                let line = argv.join(" ");
                // Bob is there already; Ann is not.
                let stdout = if line == "kanidm person get bob --name idm_admin" {
                    "name: bob"
                } else if line.contains("create-reset-token") {
                    "https://localhost/ui/reset?token=t1"
                } else if line.contains("group get") {
                    "name: users"
                } else if line.contains("list-members") {
                    "\"bob@example.test\""
                } else {
                    ""
                };
                commands.push(line);
                let next = kanidm.next_person(&configuration, state, ok(stdout));
                state = next.0;
                action = next.1;
            }
            KanidmAction::Finish(result) => {
                assert!(result.is_ok());
                break;
            }
        }
    }
    assert_eq!(
        commands,
        vec![
            "kanidm person get ann --name idm_admin",
            "kanidm person create ann Some Body --name idm_admin",
            "kanidm person update ann -i Some Body -m s@b --name idm_admin",
            "kanidm group get users --name idm_admin",
            "kanidm group list-members users --name idm_admin",
            "kanidm group add-members users ann --name idm_admin",
            "kanidm person credential create-reset-token ann --name idm_admin",
            "kanidm person get bob --name idm_admin",
            "kanidm person update bob -i Some Body -m s@b --name idm_admin",
            "kanidm group get users --name idm_admin",
            "kanidm group list-members users --name idm_admin",
        ]
    );
    assert_eq!(state.provisioned.len(), 2);
    assert_eq!(
        state.provisioned[0].reset_url.as_deref(),
        Some("https://auth.example.test/ui/reset?token=t1")
    );
    assert_eq!(state.provisioned[1].reset_url, None);
}

#[test]
fn clients_yield_their_secrets() {
    let mut configuration = configuration();
    configuration.services = vec![
        service("p", ServiceProtectionMode::Proxy),
        service("a", ServiceProtectionMode::Api),
        service("u", ServiceProtectionMode::Unprotected),
        service("n-x", ServiceProtectionMode::Native),
    ];
    let kanidm = Kanidm::new((), &configuration);
    let (mut state, mut action) = kanidm.provision_all(&configuration);
    let mut shown = 0;
    loop {
        match action {
            KanidmAction::Run(argv) => {
                let stdout = if argv.contains(&"show-basic-secret".to_string()) {
                    shown += 1;
                    format!(" s{}\n", shown)
                } else {
                    String::new()
                };
                let next = kanidm.next_client(&configuration, state, ok(&stdout));
                state = next.0;
                action = next.1;
            }
            KanidmAction::Finish(result) => {
                assert!(result.is_ok());
                break;
            }
        }
    }
    assert_eq!(
        state.secrets.all(),
        vec![
            ("OIDC_SECRET_A".to_string(), "s1".to_string()),
            ("OIDC_SECRET_N_X".to_string(), "s2".to_string()),
        ]
    );
}

#[test]
fn empty_secret_stops_the_clients() {
    let mut configuration = configuration();
    configuration.services = vec![service("a", ServiceProtectionMode::Api)];
    let kanidm = Kanidm::new((), &configuration);
    let (mut state, mut action) = kanidm.provision_all(&configuration);
    let error = loop {
        match action {
            KanidmAction::Run(_) => {
                let next = kanidm.next_client(&configuration, state, ok(""));
                state = next.0;
                action = next.1;
            }
            KanidmAction::Finish(Err(error)) => break error,
            KanidmAction::Finish(Ok(())) => panic!("a client without a secret"),
        }
    };
    assert!(matches!(error, KanidmError::Other(_)));
}

#[test]
fn single_commands_are_spelled_out() {
    let kanidm = Kanidm::new((), &configuration());
    assert_eq!(
        command(kanidm.credential_reset_url("ann").1),
        "kanidm person credential create-reset-token ann --name idm_admin"
    );
    assert_eq!(
        kanidm.reset_url_from("/ui/reset?token=x y"),
        "https://auth.example.test/ui/reset?token=x"
    );
    assert_eq!(
        kanidm.reset_url_from("http://h/ui/reset?token= y"),
        "https://auth.example.test/ui/reset?token="
    );
    assert_eq!(
        command(kanidm.basic_secret("app").1),
        "kanidm system oauth2 show-basic-secret app --name idm_admin"
    );
    assert_eq!(
        command(kanidm.ensure_person(&person("ann")).1),
        "kanidm person get ann --name idm_admin"
    );
    assert_eq!(
        command(kanidm.provision_person(&person("ann")).1),
        "kanidm person get ann --name idm_admin"
    );
}

#[test]
fn session_secret_is_kept_once_made() {
    let store = SecretStore::new("./secrets");
    assert_eq!(store.session_path(), "./secrets/APISIX_SESSION_SECRET");
    let mut random = [0u8; SESSION_SECRET_BYTES];
    for (index, byte) in random.iter_mut().enumerate() {
        *byte = index as u8 * 8;
    }
    let (secret, new) = store.session_secret(SessionSource::Missing(random));
    assert!(new);
    assert_eq!(secret.len(), 64);
    assert!(secret.starts_with("0008101820"));
    assert!(secret.chars().all(|c| matches!(c, '0'..='9' | 'a'..='f')));
    assert_eq!(
        store.write_session_secret(&secret, new),
        Some(("./secrets/APISIX_SESSION_SECRET".to_string(), secret.clone()))
    );
    let (kept, new) = store.session_secret(SessionSource::Stored(secret.clone()));
    assert!(!new);
    assert_eq!(kept, secret);
    assert_eq!(store.write_session_secret(&kept, new), None);
    let (kept, new) = store.session_secret(SessionSource::Stored(format!("{}\n", secret)));
    assert!(!new);
    assert_eq!(kept, secret);
    assert_eq!(random_hex(&vec![0x0f, 0xa9]), "0fa9");
}

#[test]
fn client_secrets_are_read_back_as_written() {
    let store = SecretStore::new("/s/");
    let secrets = SecretMap::new()
        .insert("OIDC_SECRET_B".to_string(), "two".to_string())
        .insert("OIDC_SECRET_A".to_string(), "one and a half".to_string());
    let files = store.write_client_secrets(&secrets);
    assert_eq!(
        files,
        vec![
            ("/s/OIDC_SECRET_A".to_string(), "one and a half".to_string()),
            ("/s/OIDC_SECRET_B".to_string(), "two".to_string()),
        ]
    );
    let found: Vec<(String, String)> = files
        .iter()
        .rev()
        .map(|(path, secret)| (path.replace("/s/", ""), format!("{}\n", secret)))
        .collect();
    assert_eq!(store.read_client_secrets(&found).all(), secrets.all());
    assert!(SecretStore::is_client_secret("OIDC_SECRET_A", true));
    assert!(!SecretStore::is_client_secret("OIDC_SECRET_A", false));
    assert!(!SecretStore::is_client_secret("APISIX_ADMIN_KEY", true));
}

#[test]
fn admin_key_has_to_be_there() {
    let store = SecretStore::new("s");
    assert_eq!(
        store.apisix_admin_key(Some(" key \n".to_string())).ok().as_deref(),
        Some("key")
    );
    for contents in [None, Some(" \n".to_string())] {
        match store.apisix_admin_key(contents) {
            Err(error) => {
                assert!(error.is_recoverable_by_operator());
                assert_eq!(
                    error.failure_text(),
                    "INIT: no APISIX admin key at s/APISIX_ADMIN_KEY\n\
                     copy the `admin_key` value out of crates/core/config/apisix.yaml:\n    \
                     printf '%s' '<key>' > s/APISIX_ADMIN_KEY && chmod 600 s/APISIX_ADMIN_KEY\n\
                     fix the above and re-run; nothing else is wrong"
                );
            }
            Ok(_) => panic!("a key out of nowhere"),
        }
    }
    assert_eq!(
        KanidmApisixError::Io("disk".to_string()).failure_text(),
        "INIT: io: disk"
    );
    assert_eq!(KanidmApisixError::Other("x".to_string()).message(), "INIT: x");
}

#[test]
fn stages_follow_in_order() {
    let mut configuration = configuration();
    let mut phases = vec![run_all()];
    while phases[phases.len() - 1] != InitPhase::Done {
        phases.push(next_phase(phases[phases.len() - 1], &configuration));
    }
    assert_eq!(phases.len(), 10);
    assert!(!phases.contains(&InitPhase::ProvisionPersons));
    configuration.persons = vec![person("ann")];
    assert_eq!(
        next_phase(InitPhase::KeepSessionSecret, &configuration),
        InitPhase::ProvisionPersons
    );
    assert_eq!(Reach::default(), Reach::ViaDocker);
}

#[test]
fn native_apps_are_summed_up() {
    let mut configuration = configuration();
    configuration.services = vec![
        service("g", ServiceProtectionMode::Gate),
        service("n", ServiceProtectionMode::Native),
    ];
    let natives = native_summary(&configuration);
    assert_eq!(natives.len(), 1);
    assert!(natives[0].redirect_url_missing);
    assert_eq!(
        print_native_summary(&natives, "./secrets"),
        "\nnative OIDC apps — configure these in the app itself\n\
         \n  Thing (n)\n    discovery:     https://auth.example.test/oauth2/openid/n/.well-known/openid-configuration\
         \n    client_id:     n\n    client_secret: ./secrets/OIDC_SECRET_N\
         \n    access group:  users\n    WARNING: native_redirect_url is unset — logins will fail\n\n"
    );
    assert_eq!(print_native_summary(&Vec::new(), "./secrets"), "");
}

#[test]
fn only_new_persons_are_printed() {
    let provisioned = |reset_url: Option<&str>| ProvisionedPerson {
        name: "ann".to_string(),
        display_name: "Ann".to_string(),
        groups: vec!["a".to_string(), "b".to_string()],
        reset_url: reset_url.map(|url| url.to_string()),
    };
    assert_eq!(print_person_summary(&vec![provisioned(None)]), "");
    assert_eq!(
        print_person_summary(&vec![provisioned(None), provisioned(Some("https://r"))]),
        "\nnew persons — send each user their enrolment link\n\
         \n  Ann (ann)\n    groups:    a, b\n    reset url: https://r\n    expires:   1 hour\n\n"
    );
}
