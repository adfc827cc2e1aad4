use ninoverse::configuration::{
    default_admin_url, default_curl_container, default_kanidm_admin, default_kanidm_container,
    default_secrets_dir, default_true, default_uris, parse_kafka_topics, parse_topic, Person,
    PostgresDatabaseConfiguration, Service, ServiceProtectionMode, ServicesConfiguration,
};
use ninoverse::validation::{
    no_trailing_slash, paths_absolute, report, unique_client_ids, unique_person_names,
    upstream_for, validate,
};

fn service(client_id: &str, mode: ServiceProtectionMode) -> Service {
    Service {
        client_id: client_id.to_string(),
        display_name: "Thing".to_string(),
        subdomain: "thing".to_string(),
        uris: default_uris(),
        priority: 0,
        upstream: Some("thing:8080".to_string()),
        group: "users".to_string(),
        mode,
        native_redirect_url: Some("https://app/back".to_string()),
    }
}

fn person(name: &str) -> Person {
    Person {
        name: name.to_string(),
        display_name: "Somebody".to_string(),
        mail: None,
        legal_name: None,
        groups: vec!["users".to_string()],
    }
}

fn configuration() -> ServicesConfiguration {
    ServicesConfiguration {
        domain: "example.test".to_string(),
        kanidm_origin: "https://auth.example.test".to_string(),
        kanidm_cli_container: default_kanidm_container(),
        kanidm_admin: default_kanidm_admin(),
        curl_container: default_curl_container(),
        apisix_admin_url: default_admin_url(),
        secrets_dir: default_secrets_dir(),
        set_userinfo_header: default_true(),
        tls_verify: default_true(),
        services: vec![service("a", ServiceProtectionMode::Gate)],
        persons: vec![person("p")],
    }
}

#[test]
fn topics_have_three_parts() {
    let topic = parse_topic(" name : 3 : 12").unwrap();
    assert_eq!(topic.name, "name");
    assert_eq!(topic.num_partition, 3);
    assert_eq!(topic.offset, 12);
    let cases = [
        ("name:3", "invalid topic 'name:3': expected format 'name:num_partition:offset'"),
        (" :3:1", "invalid topic ' :3:1': empty topic name"),
        (
            "n:x:1",
            "invalid num_partition 'x' in topic 'n:x:1': invalid digit found in string",
        ),
        (
            "n:1:-1",
            "invalid offset '-1' in topic 'n:1:-1': invalid digit found in string",
        ),
        ("n:1:2:3", "invalid offset '2:3' in topic 'n:1:2:3': invalid digit found in string"),
        (
            "n::1",
            "invalid num_partition '' in topic 'n::1': cannot parse integer from empty string",
        ),
    ];
    for (input, expected) in cases {
        assert_eq!(parse_topic(input).err().as_deref(), Some(expected));
    }
}

#[test]
fn first_bad_topic_is_reported() {
    let list = |items: &[&str]| items.iter().map(|item| item.to_string()).collect::<Vec<_>>();
    let topics = parse_kafka_topics(&list(&["a:1:0", "b:2:0"])).unwrap();
    assert_eq!(topics.len(), 2);
    assert_eq!(topics[1].name, "b");
    assert_eq!(
        parse_kafka_topics(&list(&["a:1:0", "b", "c"])).err().unwrap(),
        "invalid topic 'b': expected format 'name:num_partition:offset'"
    );
}

#[test]
fn password_is_never_shown() {
    let database = PostgresDatabaseConfiguration {
        host: "db".to_string(),
        port: 5432,
        name: "core".to_string(),
        user: "nino".to_string(),
        password: "hidden".to_string(),
        pool_size: 8,
        connection_attempt: 3,
    };
    let shown = database.debug_fields();
    assert_eq!(shown.len(), 6);
    assert_eq!(shown[1], ("port".to_string(), "5432".to_string()));
    assert_eq!(shown[4], ("password".to_string(), "***".to_string()));
    assert!(shown.iter().all(|(_, value)| !value.contains("hidden")));
}

#[test]
fn modes_decide_routes_and_clients() {
    let table = [
        (ServiceProtectionMode::Gate, "gate", true, true, true),
        (ServiceProtectionMode::Native, "native", false, false, true),
        (ServiceProtectionMode::Api, "api", true, false, true),
        (ServiceProtectionMode::Proxy, "proxy", true, false, false),
        (ServiceProtectionMode::Unprotected, "unprotected", false, false, false),
    ];
    for (mode, name, route, browser, client) in table {
        assert_eq!(mode.label(), name);
        assert_eq!(mode.needs_apisix_route(), route);
        assert_eq!(mode.is_browser_flow(), browser);
        assert_eq!(mode.needs_client(), client);
    }
}

#[test]
fn service_addresses_are_derived() {
    let configuration = configuration();
    let gate = service("my-app.x", ServiceProtectionMode::Gate);
    assert_eq!(gate.host(&configuration), "thing.example.test");
    assert_eq!(gate.base_url(&configuration), "https://thing.example.test");
    assert_eq!(
        gate.redirect_url(&configuration).as_deref(),
        Some("https://thing.example.test/oidc/callback")
    );
    assert_eq!(
        gate.discovery_url(&configuration),
        "https://auth.example.test/oauth2/openid/my-app.x/.well-known/openid-configuration"
    );
    assert_eq!(gate.secret_key(), "OIDC_SECRET_MY_APP.X");
    let native = service("n", ServiceProtectionMode::Native);
    assert_eq!(
        native.redirect_url(&configuration).as_deref(),
        Some("https://app/back")
    );
    for mode in [
        ServiceProtectionMode::Api,
        ServiceProtectionMode::Proxy,
        ServiceProtectionMode::Unprotected,
    ] {
        assert_eq!(service("s", mode).redirect_url(&configuration), None);
    }
}

#[test]
fn defaults_are_as_documented() {
    assert_eq!(default_kanidm_container(), "kanidm-cli");
    assert_eq!(default_kanidm_admin(), "idm_admin");
    assert_eq!(default_curl_container(), "apisix-curl");
    assert_eq!(default_admin_url(), "http://apisix:9180");
    assert_eq!(default_secrets_dir(), "./secrets");
    assert!(default_true());
    assert_eq!(default_uris(), vec!["/*"]);
}

#[test]
fn rules_complain_one_by_one() {
    assert!(no_trailing_slash("https://x").is_ok());
    assert_eq!(
        no_trailing_slash("https://x/").err().as_deref(),
        Some("must not have a trailing slash")
    );
    let twice = vec![
        service("a", ServiceProtectionMode::Gate),
        service("b", ServiceProtectionMode::Gate),
        service("a", ServiceProtectionMode::Gate),
    ];
    assert_eq!(
        unique_client_ids(&twice).err().as_deref(),
        Some("duplicate client_id 'a'")
    );
    assert_eq!(
        unique_person_names(&vec![person("p"), person("p")]).err().as_deref(),
        Some("duplicate name 'p'")
    );
    assert_eq!(
        paths_absolute(&Vec::new()).err().as_deref(),
        Some("must list at least one path")
    );
    assert_eq!(
        paths_absolute(&vec!["/a".to_string(), "b".to_string()]).err().as_deref(),
        Some("path 'b' must start with '/'")
    );
    assert_eq!(
        upstream_for(ServiceProtectionMode::Api, &None).err().as_deref(),
        Some("mode api needs an upstream")
    );
    assert!(upstream_for(ServiceProtectionMode::Native, &None).is_ok());
    assert_eq!(
        upstream_for(ServiceProtectionMode::Native, &Some("host".to_string()))
            .err()
            .as_deref(),
        Some("upstream 'host' must be host:port")
    );
}

#[test]
fn valid_configuration_has_no_problems() {
    assert!(validate(&configuration()).is_empty());
}

#[test]
fn problems_are_written_as_garde_writes_them() {
    let mut broken = configuration();
    broken.domain = String::new();
    broken.kanidm_origin.push('/');
    broken.services.push(service("a", ServiceProtectionMode::Gate));
    broken.services[1].upstream = None;
    broken.services[1].uris = vec!["a".to_string()];
    broken.services[0].uris.clear();
    broken.persons[0].groups.push(String::new());
    broken.persons.push(person(""));
    broken.persons.push(person(""));
    broken.persons[2].groups = vec![String::new()];

    let length = |text: &str| {
        garde::rules::length::simple::apply(&text, (1, usize::MAX)).err().unwrap()
    };
    let error = |text: &str| garde::Error::new(text);
    let root = garde::Path::empty();
    let persons = root.join("persons");
    let services = root.join("services");
    let mut expected = garde::Report::new();
    expected.append(root.join("domain"), length(""));
    expected.append(root.join("kanidm_origin"), error("must not have a trailing slash"));
    expected.append(persons.join(0usize).join("groups").join(1usize), length(""));
    expected.append(persons.join(1usize).join("name"), length(""));
    expected.append(persons.join(2usize).join("groups").join(0usize), length(""));
    expected.append(persons.join(2usize).join("name"), length(""));
    expected.append(persons, error("duplicate name ''"));
    expected.append(services.join(0usize).join("uris"), error("must list at least one path"));
    expected.append(
        services.join(1usize).join("upstream"),
        error("mode gate needs an upstream"),
    );
    expected.append(
        services.join(1usize).join("uris"),
        error("path 'a' must start with '/'"),
    );
    expected.append(services, error("duplicate client_id 'a'"));
    assert_eq!(report(&validate(&broken)), expected.to_string());
}

#[test]
fn items_come_before_their_list_and_persons_before_services() {
    let mut broken = configuration();
    broken.services = vec![
        service("a", ServiceProtectionMode::Gate),
        service("a", ServiceProtectionMode::Gate),
    ];
    broken.services[0].uris.clear();
    broken.services[0].upstream = None;
    broken.persons = vec![person("p"), person("p")];
    broken.persons[1].groups = vec![String::new()];
    let paths: Vec<String> = validate(&broken).into_iter().map(|(path, _)| path).collect();
    assert_eq!(
        paths,
        vec![
            "persons[1].groups[0]",
            "persons",
            "services[0].upstream",
            "services[0].uris",
            "services",
        ]
    );
}
