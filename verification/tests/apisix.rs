use ninoverse::apisix::admin::{AdminClient, RouteAction};
use ninoverse::apisix::error::ApisixError;
use ninoverse::apisix::route::{build_oidc, build_route, route_uris};
use ninoverse::configuration::{Service, ServiceProtectionMode, ServicesConfiguration};
use ninoverse::exec::ExecError;
use ninoverse::http_client::{HttpError, Response};
use ninoverse::secret_map::SecretMap;

const OIDC_URIS: &str = "/oidc/*";

fn configuration() -> ServicesConfiguration {
    ServicesConfiguration {
        domain: "example.test".into(),
        kanidm_origin: "https://auth.example.test".into(),
        kanidm_cli_container: "kanidm-cli".into(),
        kanidm_admin: "idm_admin".into(),
        curl_container: "apisix-curl".into(),
        apisix_admin_url: "http://apisix:9180".into(),
        secrets_dir: "./secrets".into(),
        set_userinfo_header: true,
        tls_verify: true,
        services: Vec::new(),
        persons: Vec::new(),
    }
}

fn service(mode: ServiceProtectionMode, uris: &[&str]) -> Service {
    Service {
        client_id: "thing".into(),
        display_name: "Thing".into(),
        subdomain: "thing".into(),
        uris: uris.iter().map(|uri| (*uri).to_string()).collect(),
        priority: 0,
        upstream: Some("thing:8080".into()),
        group: "thing_users".into(),
        mode,
        native_redirect_url: None,
    }
}

fn text(value: &str) -> serde_json::Value {
    serde_json::Value::String(value.to_string())
}

fn parsed(document: &str) -> serde_json::Value {
    serde_json::from_str(document).unwrap()
}

#[test]
fn gate_route_matches_the_oidc_callback() {
    let service = service(ServiceProtectionMode::Gate, &["/ui/*"]);
    let route = build_route(&service, &configuration(), "secret", "session")
        .ok()
        .unwrap();

    let uris: Vec<&str> = route["uris"]
        .as_array()
        .unwrap()
        .iter()
        .map(|uri| uri.as_str().unwrap())
        .collect();

    // Without this the callback falls through to a sibling route and the
    // login never completes.
    assert!(uris.contains(&OIDC_URIS), "gate route missing {OIDC_URIS}");
}

#[test]
fn gate_route_keeps_a_catch_all_as_is() {
    let service = service(ServiceProtectionMode::Gate, &["/*"]);
    let route = build_route(&service, &configuration(), "secret", "session")
        .ok()
        .unwrap();

    assert_eq!(route["uris"].as_array().unwrap().len(), 1);
}

#[test]
fn proxy_route_carries_no_auth_plugin() {
    let service = service(ServiceProtectionMode::Proxy, &["/cargo/*"]);
    let route = build_route(&service, &configuration(), "", "session")
        .ok()
        .unwrap();

    // A proxy route exists precisely so the upstream sees the request
    // untouched; an auth plugin here would reject the upstream's own tokens.
    assert!(
        route["plugins"].as_object().unwrap().is_empty(),
        "proxy route must not carry plugins"
    );
    assert_eq!(route["uris"], serde_json::Value::Array(vec![text("/cargo/*")]));
}

#[test]
fn priority_defaults_to_zero_and_is_emitted() {
    let service = service(ServiceProtectionMode::Proxy, &["/cargo/*"]);
    let route = build_route(&service, &configuration(), "", "session")
        .ok()
        .unwrap();

    assert_eq!(route["priority"], serde_json::Value::from(0));
}

#[test]
fn native_is_refused_a_route() {
    let service = service(ServiceProtectionMode::Native, &["/*"]);

    assert!(build_route(&service, &configuration(), "secret", "session").is_err());
}

#[test]
fn gate_route_is_complete() {
    let mut gated = service(ServiceProtectionMode::Gate, &["/ui/*"]);
    gated.priority = -2;
    let route = build_route(&gated, &configuration(), "top \"secret\"", "session")
        .ok()
        .unwrap();
    assert_eq!(
        route,
        parsed(
            r#"{
                "name": "thing",
                "desc": "OIDC-gated by kanidm. Managed by ninoverse-init; edits will be overwritten.",
                "uris": ["/ui/*", "/oidc/*"],
                "priority": -2,
                "host": "thing.example.test",
                "plugins": { "openid-connect": {
                    "client_id": "thing",
                    "client_secret": "top \"secret\"",
                    "discovery": "https://auth.example.test/oauth2/openid/thing/.well-known/openid-configuration",
                    "scope": "openid profile email groups",
                    "realm": "example.test",
                    "ssl_verify": true,
                    "token_signing_alg_values_expected": "ES256",
                    "set_userinfo_header": true,
                    "set_id_token_header": false,
                    "set_refresh_token_header": false,
                    "bearer_only": false,
                    "use_pkce": true,
                    "redirect_uri": "https://thing.example.test/oidc/callback",
                    "logout_path": "/oidc/logout",
                    "post_logout_redirect_uri": "https://thing.example.test/",
                    "session": { "secret": "session" }
                } },
                "upstream": {
                    "type": "roundrobin",
                    "scheme": "http",
                    "nodes": { "thing:8080": 1 },
                    "checks": { "active": {
                        "type": "http",
                        "http_path": "/",
                        "healthy": { "interval": 5, "successes": 1 },
                        "unhealthy": { "interval": 5, "http_failures": 3 }
                    } }
                }
            }"#
        )
    );
}

#[test]
fn api_route_takes_bearer_tokens() {
    let api = service(ServiceProtectionMode::Api, &["/*"]);
    let oidc = build_oidc(&api, &configuration(), "secret", "session").ok().unwrap();
    assert_eq!(oidc["bearer_only"], serde_json::Value::Bool(true));
    assert_eq!(oidc["use_jwks"], serde_json::Value::Bool(true));
    assert!(oidc.get("session").is_none());
    assert!(oidc.get("redirect_uri").is_none());
}

#[test]
fn refusals_say_why() {
    let mut proxy = service(ServiceProtectionMode::Proxy, &["/*"]);
    match build_oidc(&proxy, &configuration(), "", "") {
        Err(error) => assert_eq!(
            error.message(),
            "APISIX: config: 'thing' is proxy and must not get an openid-connect plugin"
        ),
        Ok(_) => panic!("a proxy got a login"),
    }
    proxy.upstream = None;
    match build_route(&proxy, &configuration(), "", "") {
        Err(error) => assert_eq!(error.message(), "APISIX: config: 'thing' has no upstream"),
        Ok(_) => panic!("a route to nowhere"),
    }
    let open = service(ServiceProtectionMode::Unprotected, &["/*"]);
    match build_route(&open, &configuration(), "", "") {
        Err(error) => assert_eq!(
            error.message(),
            "APISIX: config: 'thing' is unprotected and must not get an APISIX route"
        ),
        Ok(_) => panic!("a route for an unprotected service"),
    }
}

#[test]
fn only_gated_routes_grow() {
    assert_eq!(
        route_uris(&service(ServiceProtectionMode::Gate, &["/a", "/oidc/x"])),
        vec!["/a", "/oidc/x"]
    );
    assert_eq!(
        route_uris(&service(ServiceProtectionMode::Api, &["/a"])),
        vec!["/a"]
    );
    assert_eq!(
        route_uris(&service(ServiceProtectionMode::Gate, &[])),
        vec!["/oidc/*"]
    );
}

fn client(configuration: &ServicesConfiguration) -> AdminClient<()> {
    AdminClient::new((), configuration, "key".to_string())
}

#[test]
fn admin_requests_are_signed() {
    let mut configuration = configuration();
    configuration.apisix_admin_url = "http://apisix:9180/".into();
    let request = client(&configuration).call("GET", "/apisix/admin/routes", None);
    assert_eq!(request.method, "GET");
    assert_eq!(request.url, "http://apisix:9180/apisix/admin/routes");
    assert_eq!(
        request.headers,
        vec![
            ("X-API-KEY".to_string(), "key".to_string()),
            ("Content-Type".to_string(), "application/json".to_string()),
        ]
    );
    assert_eq!(request.body, None);
    let preflight = client(&configuration).preflight();
    assert_eq!(preflight.method, "GET");
    assert_eq!(preflight.path, "/apisix/admin/routes");
}

#[test]
fn admin_answers_are_judged() {
    let request = client(&configuration()).call("PUT", "/x", Some("{}".to_string()));
    let answer = |status: u16, body: String| Ok(Response { status, body });
    assert_eq!(
        AdminClient::<()>::accept(&request, answer(201, "made".to_string()))
            .ok()
            .as_deref(),
        Some("made")
    );
    match AdminClient::<()>::accept(&request, answer(401, "é".repeat(500))) {
        Err(error) => assert_eq!(
            error.message(),
            format!("APISIX: admin api PUT /x -> 401: {}", "é".repeat(400))
        ),
        Ok(_) => panic!("a refusal was accepted"),
    }
    match AdminClient::<()>::accept(&request, Err(HttpError::Exec(ExecError::EmptyCommand))) {
        Err(error) => assert_eq!(
            error.message(),
            "APISIX: HTTP: EXEC: refusing to run an empty command"
        ),
        Ok(_) => panic!("no answer was accepted"),
    }
    assert_eq!(
        ApisixError::Json("bad".to_string()).message(),
        "APISIX: json: bad"
    );
}

#[test]
fn every_routed_service_is_applied() {
    let mut configuration = configuration();
    let mut second = service(ServiceProtectionMode::Proxy, &["/p"]);
    second.client_id = "second".into();
    configuration.services = vec![
        service(ServiceProtectionMode::Native, &["/*"]),
        service(ServiceProtectionMode::Gate, &["/*"]),
        second,
    ];
    let secrets =
        SecretMap::new().insert("OIDC_SECRET_THING".to_string(), "secret".to_string());
    let admin = client(&configuration);
    let (run, action) = admin.provision_all(&configuration, &secrets, "session");
    let request = match action {
        RouteAction::Send(request) => request,
        _ => panic!("nothing to send"),
    };
    assert_eq!(request.method, "PUT");
    assert_eq!(request.path, "/apisix/admin/routes/thing");
    let body = parsed(request.body.as_deref().unwrap());
    assert_eq!(
        body["plugins"]["openid-connect"]["client_secret"],
        text("secret")
    );
    let done = || Ok(Response { status: 200, body: String::new() });
    let (run, action) =
        admin.provision_next(&configuration, &secrets, "session", run, &request, done());
    let request = match action {
        RouteAction::Send(request) => request,
        _ => panic!("nothing more to send"),
    };
    assert_eq!(request.path, "/apisix/admin/routes/second");
    let (_, action) =
        admin.provision_next(&configuration, &secrets, "session", run, &request, done());
    assert!(matches!(action, RouteAction::Finish(Ok(2))));
}

#[test]
fn missing_secret_stops_the_routes() {
    let mut configuration = configuration();
    configuration.services = vec![service(ServiceProtectionMode::Api, &["/*"])];
    let (_, action) =
        client(&configuration).provision_all(&configuration, &SecretMap::new(), "session");
    match action {
        RouteAction::Finish(Err(error)) => assert_eq!(
            error.message(),
            "APISIX: no client secret recorded for 'thing' — run the kanidm stage first"
        ),
        _ => panic!("a route without its secret"),
    }
}
