//! The route of a service, as the gateway takes it.

use crate::apisix::error::{ApisixError, ApisixErrorView};
use crate::configuration::{Service, ServiceProtectionMode, ServicesConfiguration};
use crate::configuration;
use crate::json::{
    array_value, bool_value, new_object, number_value, object_value, put, text_value, JsonView,
};
use crate::json;
use crate::text::{cat2, cat3, cat5, clone_all, has_prefix, same};
use crate::text;
use vstd::prelude::*;

verus! {

/// Whether a path is left to the login anyway.
pub open spec fn covers_login(uri: Seq<char>) -> bool {
    uri == "/*"@ || text::starts_with(uri, "/oidc"@)
}

/// The paths of the route of a service. A gated route has to match the callback
/// and the logout too: the login runs only on requests that this very route
/// matches.
pub open spec fn uris_of(mode: ServiceProtectionMode, uris: Seq<Seq<char>>) -> Seq<Seq<char>> {
    if mode == ServiceProtectionMode::Gate && !(exists|i: int|
        0 <= i < uris.len() && covers_login(#[trigger] uris[i])) {
        uris.push("/oidc/*"@)
    } else {
        uris
    }
}

/// The paths of the route of a service.
pub fn route_uris(service: &Service) -> (uris: Vec<String>)
    ensures
        text::texts(uris@) == uris_of(service.mode, text::texts(service.uris@)),
{
    let mut uris = clone_all(&service.uris);
    let ghost all = text::texts(service.uris@);
    let mut covered = false;
    let mut i: usize = 0;
    while i < uris.len()
        invariant
            i <= uris@.len(),
            all == text::texts(uris@),
            covered == (exists|j: int| 0 <= j < i && covers_login(#[trigger] all[j])),
        decreases uris@.len() - i,
    {
        assert(all[i as int] == uris@[i as int]@);
        if same(&uris[i], "/*") || has_prefix(&uris[i], "/oidc") {
            assert(covers_login(all[i as int]));
            covered = true;
        }
        i += 1;
    }
    if service.mode.is_browser_flow() && !covered {
        uris.push("/oidc/*".to_owned());
        assert(text::texts(uris@) =~= all.push("/oidc/*"@));
    }
    uris
}

/// A text as a document.
pub open spec fn string_doc(text: Seq<char>) -> JsonView {
    JsonView::Text(text)
}

/// A truth value as a document.
pub open spec fn flag_doc(flag: bool) -> JsonView {
    JsonView::Bool(flag)
}

/// The members that every login plugin has.
pub open spec fn common_members(
    service: Service,
    configuration: ServicesConfiguration,
    client_secret: Seq<char>,
) -> Map<Seq<char>, JsonView> {
    json::no_members().insert("client_id"@, string_doc(service.client_id@)).insert(
        "client_secret"@,
        string_doc(client_secret),
    ).insert("discovery"@, string_doc(service.discovery(configuration.kanidm_origin@))).insert(
        "scope"@,
        string_doc("openid profile email groups"@),
    ).insert("realm"@, string_doc(configuration.domain@)).insert(
        "ssl_verify"@,
        flag_doc(configuration.tls_verify),
    ).insert("token_signing_alg_values_expected"@, string_doc("ES256"@)).insert(
        "set_userinfo_header"@,
        flag_doc(configuration.set_userinfo_header),
    ).insert("set_id_token_header"@, flag_doc(false)).insert("set_refresh_token_header"@, flag_doc(false))
}

/// The members of the login plugin of a service that takes bearer tokens.
pub open spec fn api_members(
    service: Service,
    configuration: ServicesConfiguration,
    client_secret: Seq<char>,
) -> Map<Seq<char>, JsonView> {
    common_members(service, configuration, client_secret).insert("bearer_only"@, flag_doc(true)).insert(
        "use_jwks"@,
        flag_doc(true),
    )
}

/// The members of the login plugin of a service that is gated.
pub open spec fn gate_members(
    service: Service,
    configuration: ServicesConfiguration,
    client_secret: Seq<char>,
    session_secret: Seq<char>,
) -> Map<Seq<char>, JsonView> {
    let address = configuration::base_address(service.subdomain@, configuration.domain@);
    common_members(service, configuration, client_secret).insert(
        "bearer_only"@,
        flag_doc(false),
    ).insert("use_pkce"@, flag_doc(true)).insert(
        "redirect_uri"@,
        string_doc(address + "/oidc/callback"@),
    ).insert("logout_path"@, string_doc("/oidc/logout"@)).insert(
        "post_logout_redirect_uri"@,
        string_doc(address + "/"@),
    ).insert(
        "session"@,
        JsonView::Object(json::no_members().insert("secret"@, string_doc(session_secret))),
    )
}

/// The login plugin of a service. Only gated services and those that take bearer
/// tokens have one.
pub open spec fn oidc_document(
    service: Service,
    configuration: ServicesConfiguration,
    client_secret: Seq<char>,
    session_secret: Seq<char>,
) -> Result<JsonView, ApisixErrorView> {
    match service.mode {
        ServiceProtectionMode::Api => Ok(
            JsonView::Object(api_members(service, configuration, client_secret)),
        ),
        ServiceProtectionMode::Gate => Ok(
            JsonView::Object(
                gate_members(service, configuration, client_secret, session_secret),
            ),
        ),
        _ => Err(
            ApisixErrorView::Config(
                "'"@ + service.client_id@ + "' is "@ + service.mode.name()
                    + " and must not get an openid-connect plugin"@,
            ),
        ),
    }
}

/// Adds what every login plugin has.
fn put_common(
    oidc: &mut serde_json::Map<String, serde_json::Value>,
    service: &Service,
    configuration: &ServicesConfiguration,
    client_secret: &str,
)
    requires
        json::members(*old(oidc)) == json::no_members(),
    ensures
        json::members(*final(oidc)) == common_members(*service, *configuration, client_secret@),
{
    put(oidc, "client_id", text_value(&service.client_id));
    put(oidc, "client_secret", text_value(client_secret));
    put(oidc, "discovery", text_value(&service.discovery_url(configuration)));
    put(oidc, "scope", text_value("openid profile email groups"));
    put(oidc, "realm", text_value(&configuration.domain));
    put(oidc, "ssl_verify", bool_value(configuration.tls_verify));
    put(oidc, "token_signing_alg_values_expected", text_value("ES256"));
    put(oidc, "set_userinfo_header", bool_value(configuration.set_userinfo_header));
    put(oidc, "set_id_token_header", bool_value(false));
    put(oidc, "set_refresh_token_header", bool_value(false));
}

/// Builds the login plugin of a service.
pub fn build_oidc(
    service: &Service,
    configuration: &ServicesConfiguration,
    client_secret: &str,
    session_secret: &str,
) -> (result: Result<serde_json::Value, ApisixError>)
    ensures
        match result {
            Ok(value) => oidc_document(
                *service,
                *configuration,
                client_secret@,
                session_secret@,
            ) == Ok::<JsonView, ApisixErrorView>(json::document(value)),
            Err(error) => oidc_document(
                *service,
                *configuration,
                client_secret@,
                session_secret@,
            ) == Err::<JsonView, ApisixErrorView>(error@),
        },
{
    let mut oidc = new_object();
    put_common(&mut oidc, service, configuration, client_secret);
    match service.mode {
        ServiceProtectionMode::Api => {
            put(&mut oidc, "bearer_only", bool_value(true));
            put(&mut oidc, "use_jwks", bool_value(true));
        },
        ServiceProtectionMode::Gate => {
            put(&mut oidc, "bearer_only", bool_value(false));
            put(&mut oidc, "use_pkce", bool_value(true));
            match service.redirect_url(configuration) {
                Some(url) => {
                    put(&mut oidc, "redirect_uri", text_value(&url));
                },
                None => {
                    return Err(
                        ApisixError::Config(cat3("'", &service.client_id, "' has no redirect url")),
                    );
                },
            }
            put(&mut oidc, "logout_path", text_value("/oidc/logout"));
            put(
                &mut oidc,
                "post_logout_redirect_uri",
                text_value(&cat2(&service.base_url(configuration), "/")),
            );
            let mut session = new_object();
            put(&mut session, "secret", text_value(session_secret));
            put(&mut oidc, "session", object_value(session));
        },
        ServiceProtectionMode::Proxy
        | ServiceProtectionMode::Native
        | ServiceProtectionMode::Unprotected => {
            return Err(
                ApisixError::Config(
                    cat5(
                        "'",
                        &service.client_id,
                        "' is ",
                        &service.mode.label(),
                        " and must not get an openid-connect plugin",
                    ),
                ),
            );
        },
    }
    Ok(object_value(oidc))
}

/// The plugins of a route and what the route says of itself.
pub open spec fn plugins_of(
    service: Service,
    configuration: ServicesConfiguration,
    client_secret: Seq<char>,
    session_secret: Seq<char>,
) -> Result<(JsonView, Seq<char>), ApisixErrorView> {
    match service.mode {
        ServiceProtectionMode::Proxy => Ok(
            (
                JsonView::Object(json::no_members()),
                "Unauthenticated passthrough; the upstream owns its auth. Managed by ninoverse-init; edits will be overwritten."@,
            ),
        ),
        ServiceProtectionMode::Gate | ServiceProtectionMode::Api => match oidc_document(
            service,
            configuration,
            client_secret,
            session_secret,
        ) {
            Ok(oidc) => Ok(
                (
                    JsonView::Object(json::no_members().insert("openid-connect"@, oidc)),
                    "OIDC-gated by kanidm. Managed by ninoverse-init; edits will be overwritten."@,
                ),
            ),
            Err(error) => Err(error),
        },
        _ => Err(
            ApisixErrorView::Config(
                "'"@ + service.client_id@ + "' is "@ + service.mode.name()
                    + " and must not get an APISIX route"@,
            ),
        ),
    }
}

/// A number as a document.
pub open spec fn number_doc(number: int) -> JsonView {
    JsonView::Number(number)
}

/// How the gateway watches an upstream.
pub open spec fn checks_document() -> JsonView {
    JsonView::Object(
        json::no_members().insert(
            "active"@,
            JsonView::Object(
                json::no_members().insert("type"@, string_doc("http"@)).insert("http_path"@, string_doc("/"@)).insert(
                    "healthy"@,
                    JsonView::Object(
                        json::no_members().insert("interval"@, number_doc(5)).insert(
                            "successes"@,
                            number_doc(1),
                        ),
                    ),
                ).insert(
                    "unhealthy"@,
                    JsonView::Object(
                        json::no_members().insert("interval"@, number_doc(5)).insert(
                            "http_failures"@,
                            number_doc(3),
                        ),
                    ),
                ),
            ),
        ),
    )
}

/// Where the gateway sends the requests.
pub open spec fn upstream_document(upstream: Seq<char>) -> JsonView {
    JsonView::Object(
        json::no_members().insert("type"@, string_doc("roundrobin"@)).insert("scheme"@, string_doc("http"@)).insert(
            "nodes"@,
            JsonView::Object(json::no_members().insert(upstream, number_doc(1))),
        ).insert("checks"@, checks_document()),
    )
}

/// The route of a service.
pub open spec fn route_document(
    service: Service,
    configuration: ServicesConfiguration,
    client_secret: Seq<char>,
    session_secret: Seq<char>,
) -> Result<JsonView, ApisixErrorView> {
    match service.upstream {
        None => Err(ApisixErrorView::Config("'"@ + service.client_id@ + "' has no upstream"@)),
        Some(upstream) => match plugins_of(service, configuration, client_secret, session_secret) {
            Err(error) => Err(error),
            Ok((plugins, desc)) => Ok(
                JsonView::Object(
                    json::no_members().insert("name"@, string_doc(service.client_id@)).insert(
                        "desc"@,
                        string_doc(desc),
                    ).insert(
                        "uris"@,
                        JsonView::Array(
                            uris_of(service.mode, text::texts(service.uris@)).map_values(
                                |uri: Seq<char>| string_doc(uri),
                            ),
                        ),
                    ).insert("priority"@, number_doc(service.priority as int)).insert(
                        "host"@,
                        string_doc(configuration::host_name(service.subdomain@, configuration.domain@)),
                    ).insert("plugins"@, plugins).insert(
                        "upstream"@,
                        upstream_document(upstream@),
                    ),
                ),
            ),
        },
    }
}

/// Writes how the gateway watches an upstream.
fn build_checks() -> (value: serde_json::Value)
    ensures
        json::document(value) == checks_document(),
{
    let mut healthy = new_object();
    put(&mut healthy, "interval", number_value(5));
    put(&mut healthy, "successes", number_value(1));
    let mut unhealthy = new_object();
    put(&mut unhealthy, "interval", number_value(5));
    put(&mut unhealthy, "http_failures", number_value(3));
    let mut active = new_object();
    put(&mut active, "type", text_value("http"));
    put(&mut active, "http_path", text_value("/"));
    put(&mut active, "healthy", object_value(healthy));
    put(&mut active, "unhealthy", object_value(unhealthy));
    let mut checks = new_object();
    put(&mut checks, "active", object_value(active));
    object_value(checks)
}

/// Writes where the gateway sends the requests.
fn build_upstream(upstream: &str) -> (value: serde_json::Value)
    ensures
        json::document(value) == upstream_document(upstream@),
{
    let mut nodes = new_object();
    put(&mut nodes, upstream, number_value(1));
    let mut target = new_object();
    put(&mut target, "type", text_value("roundrobin"));
    put(&mut target, "scheme", text_value("http"));
    put(&mut target, "nodes", object_value(nodes));
    put(&mut target, "checks", build_checks());
    object_value(target)
}

/// Builds the route of a service. It needs an upstream, and a mode that gets a
/// route at all.
pub fn build_route(
    service: &Service,
    configuration: &ServicesConfiguration,
    client_secret: &str,
    session_secret: &str,
) -> (result: Result<serde_json::Value, ApisixError>)
    ensures
        match result {
            Ok(value) => route_document(
                *service,
                *configuration,
                client_secret@,
                session_secret@,
            ) == Ok::<JsonView, ApisixErrorView>(json::document(value)),
            Err(error) => route_document(
                *service,
                *configuration,
                client_secret@,
                session_secret@,
            ) == Err::<JsonView, ApisixErrorView>(error@),
        },
{
    let upstream = match &service.upstream {
        Some(upstream) => upstream.as_str(),
        None => {
            return Err(ApisixError::Config(cat3("'", &service.client_id, "' has no upstream")));
        },
    };
    let (plugins, desc) = match service.mode {
        ServiceProtectionMode::Proxy => (
            object_value(new_object()),
            "Unauthenticated passthrough; the upstream owns its auth. Managed by ninoverse-init; edits will be overwritten.",
        ),
        ServiceProtectionMode::Gate | ServiceProtectionMode::Api => {
            let oidc = match build_oidc(service, configuration, client_secret, session_secret) {
                Ok(oidc) => oidc,
                Err(error) => {
                    return Err(error);
                },
            };
            let mut plugins = new_object();
            put(&mut plugins, "openid-connect", oidc);
            (
                object_value(plugins),
                "OIDC-gated by kanidm. Managed by ninoverse-init; edits will be overwritten.",
            )
        },
        ServiceProtectionMode::Native | ServiceProtectionMode::Unprotected => {
            return Err(
                ApisixError::Config(
                    cat5(
                        "'",
                        &service.client_id,
                        "' is ",
                        &service.mode.label(),
                        " and must not get an APISIX route",
                    ),
                ),
            );
        },
    };
    let uris = route_uris(service);
    let mut list: Vec<serde_json::Value> = Vec::new();
    for i in 0..uris.len()
        invariant
            list@.len() == i,
            forall|j: int| 0 <= j < i ==> json::document(#[trigger] list@[j]) == string_doc(uris@[j]@),
    {
        list.push(text_value(&uris[i]));
    }
    assert(json::documents(list@) =~= text::texts(uris@).map_values(|uri: Seq<char>| string_doc(uri)));
    let mut route = new_object();
    put(&mut route, "name", text_value(&service.client_id));
    put(&mut route, "desc", text_value(desc));
    put(&mut route, "uris", array_value(list));
    put(&mut route, "priority", number_value(service.priority as i64));
    put(&mut route, "host", text_value(&service.host(configuration)));
    put(&mut route, "plugins", plugins);
    put(&mut route, "upstream", build_upstream(upstream));
    Ok(object_value(route))
}

// ---------------------------------------------------------------------------
// Laws of routes
// ---------------------------------------------------------------------------

/// The members of an object.
pub open spec fn members_of(value: JsonView) -> Map<Seq<char>, JsonView> {
    value->Object_0
}

/// A gated route always matches the login callback: one of its paths is the
/// catch-all or begins with `/oidc`.
pub proof fn gated_route_matches_the_callback(uris: Seq<Seq<char>>)
    ensures
        exists|i: int|
            0 <= i < uris_of(ServiceProtectionMode::Gate, uris).len() && covers_login(
                #[trigger] uris_of(ServiceProtectionMode::Gate, uris)[i],
            ),
{
    let all = uris_of(ServiceProtectionMode::Gate, uris);
    if !(exists|i: int| 0 <= i < uris.len() && covers_login(#[trigger] uris[i])) {
        reveal_strlit("/oidc/*");
        reveal_strlit("/oidc");
        assert("/oidc/*"@.take(5) =~= "/oidc"@);
        assert(covers_login(all[uris.len() as int]));
    }
}

/// A service gets a route exactly where its mode asks for one and it has an
/// upstream. Its secrets play no part in that.
pub proof fn route_exists_iff_routed(
    service: Service,
    configuration: ServicesConfiguration,
    client_secret: Seq<char>,
    session_secret: Seq<char>,
)
    ensures
        route_document(service, configuration, client_secret, session_secret) is Ok <==> (
        service.mode.routed() && service.upstream is Some),
{
}

/// A proxy route carries no plugins, so that the upstream sees the request
/// untouched, and no secret reaches it.
pub proof fn proxy_route_carries_no_plugins(
    service: Service,
    configuration: ServicesConfiguration,
    client_secret: Seq<char>,
    session_secret: Seq<char>,
)
    requires
        service.mode == ServiceProtectionMode::Proxy,
        service.upstream is Some,
    ensures
        route_document(service, configuration, client_secret, session_secret) matches Ok(route)
            && members_of(route).contains_pair("plugins"@, JsonView::Object(json::no_members())),
        forall|other_secret: Seq<char>, other_session: Seq<char>|
            route_document(service, configuration, other_secret, other_session) == route_document(
                service,
                configuration,
                client_secret,
                session_secret,
            ),
{
    reveal_strlit("plugins");
    reveal_strlit("upstream");
    assert("plugins"@[0] != "upstream"@[0]);
}

/// A valid configuration can be routed: no service that asks for a route is
/// refused one.
pub proof fn valid_configuration_gets_its_routes(
    configuration: ServicesConfiguration,
    k: int,
    client_secret: Seq<char>,
    session_secret: Seq<char>,
)
    requires
        crate::validation::problems(configuration).len() == 0,
        0 <= k < configuration.services@.len(),
        configuration.services@[k].mode.routed(),
    ensures
        route_document(configuration.services@[k], configuration, client_secret, session_secret)
            is Ok,
{
    crate::validation::valid_configuration_is_usable(configuration);
}

proof fn lemma_login_keys_differ()
    ensures
        "client_id"@.len() == 9,
        "client_secret"@.len() == 13,
        "discovery"@.len() == 9,
        "scope"@.len() == 5,
        "realm"@.len() == 5,
        "ssl_verify"@.len() == 10,
        "token_signing_alg_values_expected"@.len() == 33,
        "set_userinfo_header"@.len() == 19,
        "set_id_token_header"@.len() == 19,
        "set_refresh_token_header"@.len() == 24,
        "bearer_only"@.len() == 11,
        "use_jwks"@.len() == 8,
        "use_pkce"@.len() == 8,
        "redirect_uri"@.len() == 12,
        "logout_path"@.len() == 11,
        "post_logout_redirect_uri"@.len() == 24,
        "session"@.len() == 7,
        "client_id"@ != "discovery"@,
        "scope"@ != "realm"@,
        "set_userinfo_header"@ != "set_id_token_header"@,
        "set_refresh_token_header"@ != "post_logout_redirect_uri"@,
        "bearer_only"@ != "logout_path"@,
        "use_jwks"@ != "use_pkce"@,
{
    reveal_strlit("client_id");
    reveal_strlit("client_secret");
    reveal_strlit("discovery");
    reveal_strlit("scope");
    reveal_strlit("realm");
    reveal_strlit("ssl_verify");
    reveal_strlit("token_signing_alg_values_expected");
    reveal_strlit("set_userinfo_header");
    reveal_strlit("set_id_token_header");
    reveal_strlit("set_refresh_token_header");
    reveal_strlit("bearer_only");
    reveal_strlit("use_jwks");
    reveal_strlit("use_pkce");
    reveal_strlit("redirect_uri");
    reveal_strlit("logout_path");
    reveal_strlit("post_logout_redirect_uri");
    reveal_strlit("session");
    assert("client_id"@[0] != "discovery"@[0]);
    assert("scope"@[0] != "realm"@[0]);
    assert("set_userinfo_header"@[4] != "set_id_token_header"@[4]);
    assert("set_refresh_token_header"@[0] != "post_logout_redirect_uri"@[0]);
    assert("bearer_only"@[0] != "logout_path"@[0]);
    assert("use_jwks"@[4] != "use_pkce"@[4]);
}

/// Every login plugin carries the client of its service: its identifier, the
/// secret that was handed in, where kanidm is discovered, what is asked of it, and
/// how the configuration wants it checked.
pub proof fn login_carries_the_client(
    service: Service,
    configuration: ServicesConfiguration,
    client_secret: Seq<char>,
    session_secret: Seq<char>,
)
    requires
        service.mode == ServiceProtectionMode::Api || service.mode == ServiceProtectionMode::Gate,
    ensures
        ({
            let plugin = oidc_document(service, configuration, client_secret, session_secret);
            let members = plugin->Ok_0->Object_0;
            &&& plugin is Ok && plugin->Ok_0 is Object
            &&& members.contains_pair("client_id"@, JsonView::Text(service.client_id@))
            &&& members.contains_pair("client_secret"@, JsonView::Text(client_secret))
            &&& members.contains_pair(
                "discovery"@,
                JsonView::Text(
                    configuration.kanidm_origin@ + "/oauth2/openid/"@ + service.client_id@
                        + "/.well-known/openid-configuration"@,
                ),
            )
            &&& members.contains_pair("scope"@, JsonView::Text("openid profile email groups"@))
            &&& members.contains_pair("realm"@, JsonView::Text(configuration.domain@))
            &&& members.contains_pair("ssl_verify"@, JsonView::Bool(configuration.tls_verify))
            &&& members.contains_pair("token_signing_alg_values_expected"@, JsonView::Text("ES256"@))
            &&& members.contains_pair(
                "set_userinfo_header"@,
                JsonView::Bool(configuration.set_userinfo_header),
            )
            &&& members.contains_pair("set_id_token_header"@, JsonView::Bool(false))
            &&& members.contains_pair("set_refresh_token_header"@, JsonView::Bool(false))
        }),
{
    lemma_login_keys_differ();
}

/// A program that calls an api carries its token along: nothing is redirected, and
/// the token is held against kanidm's keys.
pub proof fn api_login_takes_tokens_only(
    service: Service,
    configuration: ServicesConfiguration,
    client_secret: Seq<char>,
    session_secret: Seq<char>,
)
    requires
        service.mode == ServiceProtectionMode::Api,
    ensures
        ({
            let plugin = oidc_document(service, configuration, client_secret, session_secret);
            let members = plugin->Ok_0->Object_0;
            &&& members.contains_pair("bearer_only"@, JsonView::Bool(true))
            &&& members.contains_pair("use_jwks"@, JsonView::Bool(true))
            &&& forall|key: Seq<char>| #[trigger]
                members.contains_key(key) ==> key == "client_id"@ || key == "client_secret"@
                    || key == "discovery"@ || key == "scope"@ || key == "realm"@
                    || key == "ssl_verify"@ || key == "token_signing_alg_values_expected"@
                    || key == "set_userinfo_header"@ || key == "set_id_token_header"@
                    || key == "set_refresh_token_header"@ || key == "bearer_only"@
                    || key == "use_jwks"@
        }),
{
    lemma_login_keys_differ();
}

/// A visitor of a gated service is sent to kanidm and back to the service's own
/// address, logs out there, and keeps a session under the session secret.
pub proof fn gate_login_comes_back_to_the_service(
    service: Service,
    configuration: ServicesConfiguration,
    client_secret: Seq<char>,
    session_secret: Seq<char>,
)
    requires
        service.mode == ServiceProtectionMode::Gate,
    ensures
        ({
            let plugin = oidc_document(service, configuration, client_secret, session_secret);
            let members = plugin->Ok_0->Object_0;
            &&& members.contains_pair("bearer_only"@, JsonView::Bool(false))
            &&& members.contains_pair("use_pkce"@, JsonView::Bool(true))
            &&& members.contains_pair(
                "redirect_uri"@,
                JsonView::Text(
                    "https://"@ + service.subdomain@ + "."@ + configuration.domain@
                        + "/oidc/callback"@,
                ),
            )
            &&& members.contains_pair("logout_path"@, JsonView::Text("/oidc/logout"@))
            &&& members.contains_pair(
                "post_logout_redirect_uri"@,
                JsonView::Text(
                    "https://"@ + service.subdomain@ + "."@ + configuration.domain@
                        + "/"@,
                ),
            )
            &&& members.contains_key("session"@) && members["session"@] == JsonView::Object(
                map!["secret"@ => JsonView::Text(session_secret)],
            )
            &&& forall|key: Seq<char>| #[trigger]
                members.contains_key(key) ==> key == "client_id"@ || key == "client_secret"@
                    || key == "discovery"@ || key == "scope"@ || key == "realm"@
                    || key == "ssl_verify"@ || key == "token_signing_alg_values_expected"@
                    || key == "set_userinfo_header"@ || key == "set_id_token_header"@
                    || key == "set_refresh_token_header"@ || key == "bearer_only"@
                    || key == "use_pkce"@ || key == "redirect_uri"@ || key == "logout_path"@
                    || key == "post_logout_redirect_uri"@ || key == "session"@
        }),
{
    lemma_login_keys_differ();
    assert("https://"@ + configuration::host_name(service.subdomain@, configuration.domain@)
        =~= "https://"@ + service.subdomain@ + "."@ + configuration.domain@);
    assert(json::no_members().insert("secret"@, JsonView::Text(session_secret)) =~= map![
        "secret"@ => JsonView::Text(session_secret)
    ]);
}

/// No other service gets a login plugin, and the error says which one asked.
pub proof fn only_api_and_gate_log_in(
    service: Service,
    configuration: ServicesConfiguration,
    client_secret: Seq<char>,
    session_secret: Seq<char>,
)
    requires
        service.mode != ServiceProtectionMode::Api,
        service.mode != ServiceProtectionMode::Gate,
    ensures
        oidc_document(service, configuration, client_secret, session_secret) == Err::<
            JsonView,
            ApisixErrorView,
        >(
            ApisixErrorView::Config(
                "'"@ + service.client_id@ + "' is "@ + service.mode.name()
                    + " and must not get an openid-connect plugin"@,
            ),
        ),
{
}

/// The declared paths stay, in order. A gated service gets the login path behind
/// them where none of them covers it, and no other service gets one more.
pub proof fn declared_uris_stay(mode: ServiceProtectionMode, uris: Seq<Seq<char>>)
    ensures
        mode != ServiceProtectionMode::Gate ==> uris_of(mode, uris) == uris,
        (exists|i: int|
            0 <= i < uris.len() && (#[trigger] uris[i] == "/*"@ || (uris[i].len() >= 5
                && uris[i].take(5) == "/oidc"@))) ==> uris_of(mode, uris) == uris,
        mode == ServiceProtectionMode::Gate && (forall|i: int|
            0 <= i < uris.len() ==> #[trigger] uris[i] != "/*"@ && (uris[i].len() < 5
                || uris[i].take(5) != "/oidc"@)) ==> uris_of(mode, uris) == uris + seq![
            "/oidc/*"@,
        ],
{
    reveal_strlit("/oidc");
    assert forall|i: int| 0 <= i < uris.len() implies (covers_login(#[trigger] uris[i]) <==> (uris[i]
        == "/*"@ || (uris[i].len() >= 5 && uris[i].take(5) == "/oidc"@))) by {
        assert(uris[i].len() >= 5 ==> uris[i].take(5) =~= uris[i].subrange(0, 5));
    }
    assert(uris.push("/oidc/*"@) =~= uris + seq!["/oidc/*"@]);
}

proof fn lemma_route_keys_differ()
    ensures
        "checks"@.len() == 6,
        "desc"@.len() == 4,
        "healthy"@.len() == 7,
        "host"@.len() == 4,
        "http_failures"@.len() == 13,
        "http_path"@.len() == 9,
        "interval"@.len() == 8,
        "name"@.len() == 4,
        "nodes"@.len() == 5,
        "plugins"@.len() == 7,
        "priority"@.len() == 8,
        "scheme"@.len() == 6,
        "successes"@.len() == 9,
        "type"@.len() == 4,
        "unhealthy"@.len() == 9,
        "upstream"@.len() == 8,
        "uris"@.len() == 4,
        "name"@ != "desc"@,
        "name"@ != "uris"@,
        "name"@ != "host"@,
        "desc"@ != "uris"@,
        "desc"@ != "host"@,
        "uris"@ != "host"@,
        "priority"@ != "upstream"@,
        "scheme"@ != "checks"@,
        "http_path"@ != "unhealthy"@,
{
    reveal_strlit("checks");
    reveal_strlit("desc");
    reveal_strlit("healthy");
    reveal_strlit("host");
    reveal_strlit("http_failures");
    reveal_strlit("http_path");
    reveal_strlit("interval");
    reveal_strlit("name");
    reveal_strlit("nodes");
    reveal_strlit("plugins");
    reveal_strlit("priority");
    reveal_strlit("scheme");
    reveal_strlit("successes");
    reveal_strlit("type");
    reveal_strlit("unhealthy");
    reveal_strlit("upstream");
    reveal_strlit("uris");
    assert("name"@[0] != "desc"@[0]);
    assert("name"@[0] != "uris"@[0]);
    assert("name"@[0] != "host"@[0]);
    assert("desc"@[0] != "uris"@[0]);
    assert("desc"@[0] != "host"@[0]);
    assert("uris"@[0] != "host"@[0]);
    assert("priority"@[0] != "upstream"@[0]);
    assert("scheme"@[0] != "checks"@[0]);
    assert("http_path"@[0] != "unhealthy"@[0]);
}

/// A route is named after its client and matches its service's paths at the
/// service's host; it says whether kanidm guards it, and leads to the upstream.
pub proof fn route_leads_to_its_service(
    service: Service,
    configuration: ServicesConfiguration,
    client_secret: Seq<char>,
    session_secret: Seq<char>,
)
    requires
        service.upstream is Some,
        service.mode == ServiceProtectionMode::Gate || service.mode == ServiceProtectionMode::Api
            || service.mode == ServiceProtectionMode::Proxy,
    ensures
        ({
            let route = route_document(service, configuration, client_secret, session_secret);
            let members = route->Ok_0->Object_0;
            let uris = uris_of(service.mode, text::texts(service.uris@));
            &&& route is Ok && route->Ok_0 is Object
            &&& members.contains_pair("name"@, JsonView::Text(service.client_id@))
            &&& members.contains_pair(
                "host"@,
                JsonView::Text(service.subdomain@ + "."@ + configuration.domain@),
            )
            &&& members.contains_pair("priority"@, JsonView::Number(service.priority as int))
            &&& members.contains_pair(
                "uris"@,
                JsonView::Array(Seq::new(uris.len(), |i: int| JsonView::Text(uris[i]))),
            )
            &&& service.mode == ServiceProtectionMode::Proxy ==> members.contains_pair(
                "plugins"@,
                JsonView::Object(Map::empty()),
            ) && members.contains_pair(
                "desc"@,
                JsonView::Text(
                    "Unauthenticated passthrough; the upstream owns its auth. Managed by ninoverse-init; edits will be overwritten."@,
                ),
            )
            &&& service.mode != ServiceProtectionMode::Proxy ==> members.contains_pair(
                "plugins"@,
                JsonView::Object(
                    map![
                        "openid-connect"@ => oidc_document(
                            service,
                            configuration,
                            client_secret,
                            session_secret,
                        )->Ok_0
                    ],
                ),
            ) && members.contains_pair(
                "desc"@,
                JsonView::Text(
                    "OIDC-gated by kanidm. Managed by ninoverse-init; edits will be overwritten."@,
                ),
            )
            &&& members.contains_key("upstream"@) && members["upstream"@] == upstream_document(
                service.upstream->0@,
            )
            &&& forall|key: Seq<char>| #[trigger]
                members.contains_key(key) ==> key == "name"@ || key == "desc"@ || key == "uris"@
                    || key == "priority"@ || key == "host"@ || key == "plugins"@
                    || key == "upstream"@
        }),
{
    lemma_route_keys_differ();
    let uris = uris_of(service.mode, text::texts(service.uris@));
    assert(uris.map_values(|uri: Seq<char>| string_doc(uri)) =~= Seq::new(
        uris.len(),
        |i: int| JsonView::Text(uris[i]),
    ));
    let oidc = oidc_document(service, configuration, client_secret, session_secret);
    assert(json::no_members().insert("openid-connect"@, oidc->Ok_0) =~= map![
        "openid-connect"@ => oidc->Ok_0
    ]);
}

/// An upstream is one node, called over http, and looked at every five seconds:
/// one good answer makes it healthy, three bad ones unhealthy.
pub proof fn upstream_is_one_watched_node(upstream: Seq<char>)
    ensures
        ({
            let members = upstream_document(upstream)->Object_0;
            let active = members["checks"@]->Object_0["active"@]->Object_0;
            &&& upstream_document(upstream) is Object
            &&& members.contains_pair("type"@, JsonView::Text("roundrobin"@))
            &&& members.contains_pair("scheme"@, JsonView::Text("http"@))
            &&& members.contains_pair(
                "nodes"@,
                JsonView::Object(map![upstream => JsonView::Number(1)]),
            )
            &&& members.contains_pair(
                "checks"@,
                JsonView::Object(map!["active"@ => JsonView::Object(active)]),
            )
            &&& active.contains_pair("type"@, JsonView::Text("http"@))
            &&& active.contains_pair("http_path"@, JsonView::Text("/"@))
            &&& active.contains_pair(
                "healthy"@,
                JsonView::Object(
                    map!["interval"@ => JsonView::Number(5), "successes"@ => JsonView::Number(1)],
                ),
            )
            &&& active.contains_pair(
                "unhealthy"@,
                JsonView::Object(
                    map![
                        "interval"@ => JsonView::Number(5),
                        "http_failures"@ => JsonView::Number(3)
                    ],
                ),
            )
            &&& forall|key: Seq<char>| #[trigger]
                members.contains_key(key) ==> key == "type"@ || key == "scheme"@
                    || key == "nodes"@ || key == "checks"@
            &&& forall|key: Seq<char>| #[trigger]
                active.contains_key(key) ==> key == "type"@ || key == "http_path"@
                    || key == "healthy"@ || key == "unhealthy"@
        }),
{
    lemma_route_keys_differ();
}

} // verus!
