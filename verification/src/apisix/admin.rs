//! The admin API of the gateway: its requests, its answers and the run that
//! applies all routes.

use crate::apisix::error::{ApisixError, ApisixErrorView};
use crate::apisix::route::build_route;
use crate::apisix::route;
use crate::configuration::{Service, ServiceProtectionMode, ServicesConfiguration};
use crate::configuration;
use crate::http_client::{HttpError, HttpErrorView, Response, ResponseView};
use crate::http_client;
use crate::json::{describe_json_error, write_json};
use crate::json;
use crate::secret_map::SecretMap;
use crate::text::{cat2, char_vec, string_range, trim_end_text};
use crate::text;
use vstd::prelude::*;

verus! {

/// How many characters of an answer an error shows.
pub const SHOWN_BODY_CHARS: usize = 400;

/// A request to the admin interface of the gateway.
pub struct AdminRequest {
    pub method: String,
    pub path: String,
    pub url: String,
    pub headers: Vec<(String, String)>,
    pub body: Option<String>,
}

/// The contents of an `AdminRequest`.
#[verifier::ext_equal]
pub struct AdminRequestView {
    pub method: Seq<char>,
    pub path: Seq<char>,
    pub url: Seq<char>,
    pub headers: Seq<(Seq<char>, Seq<char>)>,
    pub body: Option<Seq<char>>,
}

impl View for AdminRequest {
    type V = AdminRequestView;

    open spec fn view(&self) -> AdminRequestView {
        AdminRequestView {
            method: self.method@,
            path: self.path@,
            url: self.url@,
            headers: text::text_pairs(self.headers@),
            body: text::opt_text(self.body),
        }
    }
}

/// A request to the admin interface: signed with the key, and JSON.
pub open spec fn admin_request(
    base_url: Seq<char>,
    api_key: Seq<char>,
    method: Seq<char>,
    path: Seq<char>,
    body: Option<Seq<char>>,
) -> AdminRequestView {
    AdminRequestView {
        method,
        path,
        url: base_url + path,
        headers: seq![("X-API-KEY"@, api_key), ("Content-Type"@, "application/json"@)],
        body,
    }
}

/// The path of the route of a client.
pub open spec fn route_path(client_id: Seq<char>) -> Seq<char> {
    "/apisix/admin/routes/"@ + client_id
}

/// The first characters of a text.
pub open spec fn shortened(body: Seq<char>, limit: int) -> Seq<char> {
    if body.len() <= limit {
        body
    } else {
        body.take(limit)
    }
}

/// What an answer of the admin interface comes to: its body, or why it is no
/// success.
pub open spec fn accepted(
    method: Seq<char>,
    path: Seq<char>,
    answer: Result<ResponseView, HttpErrorView>,
) -> Result<Seq<char>, ApisixErrorView> {
    match answer {
        Err(error) => Err(ApisixErrorView::Http(error)),
        Ok(response) => if 200 <= response.status < 300 {
            Ok(response.body)
        } else {
            Err(
                ApisixErrorView::AdminApi {
                    method,
                    path,
                    status: response.status,
                    body: shortened(response.body, SHOWN_BODY_CHARS as int),
                },
            )
        },
    }
}

/// The position of the first service from `from` on that gets a route.
pub open spec fn next_routed(services: Seq<Service>, from: int) -> int
    decreases services.len() - from,
{
    if from >= services.len() {
        services.len() as int
    } else if services[from].mode.routed() {
        from
    } else {
        next_routed(services, from + 1)
    }
}

/// The secret that the route of a service carries. A proxy route carries none.
pub open spec fn route_secret(service: Service, secrets: Map<Seq<char>, Seq<char>>) -> Result<
    Seq<char>,
    ApisixErrorView,
> {
    if service.mode == ServiceProtectionMode::Proxy {
        Ok(Seq::empty())
    } else if secrets.contains_key(configuration::secret_name(service.client_id@)) {
        Ok(secrets[configuration::secret_name(service.client_id@)])
    } else {
        Err(ApisixErrorView::MissingSecret(service.client_id@))
    }
}

/// The request that applies the route of a service.
pub open spec fn route_request(
    base_url: Seq<char>,
    api_key: Seq<char>,
    service: Service,
    configuration: ServicesConfiguration,
    secrets: Map<Seq<char>, Seq<char>>,
    session_secret: Seq<char>,
) -> Result<AdminRequestView, ApisixErrorView> {
    match route_secret(service, secrets) {
        Err(error) => Err(error),
        Ok(secret) => match route::route_document(service, configuration, secret, session_secret) {
            Err(error) => Err(error),
            Ok(route) => Ok(
                admin_request(
                    base_url,
                    api_key,
                    "PUT"@,
                    route_path(service.client_id@),
                    Some(json::json_text(route)),
                ),
            ),
        },
    }
}

/// What is to be done next.
pub enum RouteAction {
    Send(AdminRequest),
    Finish(Result<usize, ApisixError>),
}

/// The contents of a `RouteAction`.
#[verifier::ext_equal]
pub enum RouteActionView {
    Send(AdminRequestView),
    Finish(Result<int, ApisixErrorView>),
}

impl View for RouteAction {
    type V = RouteActionView;

    open spec fn view(&self) -> RouteActionView {
        match self {
            RouteAction::Send(request) => RouteActionView::Send(request@),
            RouteAction::Finish(Ok(count)) => RouteActionView::Finish(Ok(*count as int)),
            RouteAction::Finish(Err(error)) => RouteActionView::Finish(Err(error@)),
        }
    }
}

/// How far the routes have come: the service under way, and how many routes
/// have been applied.
#[derive(Clone, Copy, PartialEq, Eq, Debug, Structural)]
pub struct RouteRun {
    pub index: usize,
    pub count: usize,
}

/// Turns to the first service from `from` on that gets a route.
pub open spec fn routes_from(
    base_url: Seq<char>,
    api_key: Seq<char>,
    configuration: ServicesConfiguration,
    secrets: Map<Seq<char>, Seq<char>>,
    session_secret: Seq<char>,
    from: int,
    count: int,
) -> (int, RouteActionView) {
    let index = next_routed(configuration.services@, from);
    if index >= configuration.services@.len() {
        (index, RouteActionView::Finish(Ok(count)))
    } else {
        match route_request(
            base_url,
            api_key,
            configuration.services@[index],
            configuration,
            secrets,
            session_secret,
        ) {
            Ok(request) => (index, RouteActionView::Send(request)),
            Err(error) => (index, RouteActionView::Finish(Err(error))),
        }
    }
}

/// The client of the admin interface of the gateway.
pub struct AdminClient<Client> {
    http: Client,
    base_url: String,
    api_key: String,
}

impl<Client> AdminClient<Client> {
    /// The client that sends the requests.
    pub closed spec fn uses(&self) -> Client {
        self.http
    }

    /// The address of the admin interface.
    pub closed spec fn base(&self) -> Seq<char> {
        self.base_url@
    }

    /// The key that signs the requests.
    pub closed spec fn key(&self) -> Seq<char> {
        self.api_key@
    }

    /// A client for the configured admin interface. Slashes at the end of its
    /// address are dropped.
    pub fn new(http: Client, configuration: &ServicesConfiguration, api_key: String) -> (client:
        Self)
        ensures
            client.uses() == http,
            client.base() == text::trim_end_char(configuration.apisix_admin_url@, '/'),
            client.key() == api_key@,
    {
        Self { http, base_url: trim_end_text(&configuration.apisix_admin_url, '/'), api_key }
    }

    /// The client that sends the requests.
    pub fn http(&self) -> (http: &Client)
        ensures
            *http == self.uses(),
    {
        &self.http
    }

    /// A request to the admin interface.
    pub fn call(&self, method: &str, path: &str, body: Option<String>) -> (request: AdminRequest)
        ensures
            request@ == admin_request(self.base(), self.key(), method@, path@, text::opt_text(body)),
    {
        let headers = vec![
            ("X-API-KEY".to_owned(), self.api_key.clone()),
            ("Content-Type".to_owned(), "application/json".to_owned()),
        ];
        assert(text::text_pairs(headers@) =~= seq![
            ("X-API-KEY"@, self.key()),
            ("Content-Type"@, "application/json"@),
        ]);
        AdminRequest {
            method: method.to_owned(),
            path: path.to_owned(),
            url: cat2(&self.base_url, path),
            headers,
            body,
        }
    }

    /// What an answer of the admin interface comes to.
    pub fn accept(request: &AdminRequest, answer: Result<Response, HttpError>) -> (result: Result<
        String,
        ApisixError,
    >)
        ensures
            match result {
                Ok(body) => accepted(request@.method, request@.path, http_client::answered(answer)) == Ok::<
                    Seq<char>,
                    ApisixErrorView,
                >(body@),
                Err(error) => accepted(request@.method, request@.path, http_client::answered(answer)) == Err::<
                    Seq<char>,
                    ApisixErrorView,
                >(error@),
            },
    {
        match answer {
            Err(error) => Err(ApisixError::Http(error)),
            Ok(response) => {
                if response.is_success() {
                    return Ok(response.body);
                }
                let chars = char_vec(&response.body);
                let shown: usize = if chars.len() <= SHOWN_BODY_CHARS {
                    chars.len()
                } else {
                    SHOWN_BODY_CHARS
                };
                let body = string_range(&chars, 0, shown);
                assert(body@ =~= shortened(response.body@, SHOWN_BODY_CHARS as int));
                Err(
                    ApisixError::AdminApi {
                        method: request.method.clone(),
                        path: request.path.clone(),
                        status: response.status,
                        body,
                    },
                )
            },
        }
    }

    /// The request that shows whether the admin interface is reached and takes
    /// the key.
    pub fn preflight(&self) -> (request: AdminRequest)
        ensures
            request@ == admin_request(
                self.base(),
                self.key(),
                "GET"@,
                "/apisix/admin/routes"@,
                None,
            ),
    {
        self.call("GET", "/apisix/admin/routes", None)
    }

    /// The request that applies a route.
    pub fn put_route(&self, service: &Service, payload: &serde_json::Value) -> (result: Result<
        AdminRequest,
        ApisixError,
    >)
        ensures
            result matches Ok(request) && request@ == admin_request(
                self.base(),
                self.key(),
                "PUT"@,
                route_path(service.client_id@),
                Some(json::json_text(json::document(*payload))),
            ),
    {
        let path = cat2("/apisix/admin/routes/", &service.client_id);
        match write_json(payload) {
            Ok(body) => Ok(self.call("PUT", &path, Some(body))),
            Err(error) => Err(ApisixError::Json(describe_json_error(&error))),
        }
    }

    /// Builds the request that applies the route of a service.
    fn prepare_route(
        &self,
        service: &Service,
        configuration: &ServicesConfiguration,
        secrets: &SecretMap,
        session_secret: &str,
    ) -> (result: Result<AdminRequest, ApisixError>)
        ensures
            match result {
                Ok(request) => route_request(
                    self.base(),
                    self.key(),
                    *service,
                    *configuration,
                    secrets@,
                    session_secret@,
                ) == Ok::<AdminRequestView, ApisixErrorView>(request@),
                Err(error) => route_request(
                    self.base(),
                    self.key(),
                    *service,
                    *configuration,
                    secrets@,
                    session_secret@,
                ) == Err::<AdminRequestView, ApisixErrorView>(error@),
            },
    {
        let secret: String = match service.mode {
            ServiceProtectionMode::Proxy => String::new(),
            _ => match secrets.get(&service.secret_key()) {
                Some(secret) => secret,
                None => {
                    return Err(ApisixError::MissingSecret(service.client_id.clone()));
                },
            },
        };
        match build_route(service, configuration, &secret, session_secret) {
            Ok(payload) => self.put_route(service, &payload),
            Err(error) => Err(error),
        }
    }

    /// Turns to the first service from `from` on that gets a route.
    fn turn_to(
        &self,
        configuration: &ServicesConfiguration,
        secrets: &SecretMap,
        session_secret: &str,
        from: usize,
        count: usize,
    ) -> (turned: (RouteRun, RouteAction))
        requires
            from <= configuration.services@.len(),
        ensures
            turned.0.count == count,
            (turned.0.index as int, turned.1@) == routes_from(
                self.base(),
                self.key(),
                *configuration,
                secrets@,
                session_secret@,
                from as int,
                count as int,
            ),
    {
        let services = &configuration.services;
        let mut index: usize = from;
        while index < services.len() && !services[index].mode.needs_apisix_route()
            invariant
                index <= services@.len(),
                next_routed(services@, from as int) == next_routed(services@, index as int),
            decreases services@.len() - index,
        {
            index += 1;
        }
        let run = RouteRun { index, count };
        if index >= services.len() {
            return (run, RouteAction::Finish(Ok(count)));
        }
        match self.prepare_route(&services[index], configuration, secrets, session_secret) {
            Ok(request) => (run, RouteAction::Send(request)),
            Err(error) => (run, RouteAction::Finish(Err(error))),
        }
    }

    /// Begins to apply the routes of all services that get one, in order.
    pub fn provision_all(
        &self,
        configuration: &ServicesConfiguration,
        secrets: &SecretMap,
        session_secret: &str,
    ) -> (begun: (RouteRun, RouteAction))
        ensures
            begun.0.count == 0,
            (begun.0.index as int, begun.1@) == routes_from(
                self.base(),
                self.key(),
                *configuration,
                secrets@,
                session_secret@,
                0,
                0,
            ),
    {
        self.turn_to(configuration, secrets, session_secret, 0, 0)
    }

    /// Takes the answer to the request under way and says what is to be done
    /// next: the next route, or the end, with the first error or with the number
    /// of routes.
    pub fn provision_next(
        &self,
        configuration: &ServicesConfiguration,
        secrets: &SecretMap,
        session_secret: &str,
        run: RouteRun,
        request: &AdminRequest,
        answer: Result<Response, HttpError>,
    ) -> (next: (RouteRun, RouteAction))
        requires
            run.index < configuration.services@.len(),
            run.count <= run.index,
        ensures
            match accepted(request@.method, request@.path, http_client::answered(answer)) {
                Err(error) => next.0 == run && next.1@ == RouteActionView::Finish(Err(error)),
                Ok(_) => next.0.count == run.count + 1 && (next.0.index as int, next.1@)
                    == routes_from(
                    self.base(),
                    self.key(),
                    *configuration,
                    secrets@,
                    session_secret@,
                    run.index + 1,
                    run.count + 1,
                ),
            },
    {
        match Self::accept(request, answer) {
            Err(error) => (run, RouteAction::Finish(Err(error))),
            Ok(_) => {
                let total: usize = configuration.services.len();
                self.turn_to(
                    configuration,
                    secrets,
                    session_secret,
                    run.index + 1,
                    run.count + 1,
                )
            },
        }
    }
}

// ---------------------------------------------------------------------------
// Laws of the admin client
// ---------------------------------------------------------------------------

/// How many of the services from `from` on get a route.
pub open spec fn routed_count(services: Seq<Service>, from: int) -> int
    decreases services.len() - from,
{
    if from >= services.len() {
        0
    } else if services[from].mode.routed() {
        1 + routed_count(services, from + 1)
    } else {
        routed_count(services, from + 1)
    }
}

/// The number of routes that is reported when every answer from the service
/// `from` on is a success.
pub open spec fn reported_count(services: Seq<Service>, from: int, count: int) -> int
    decreases services.len() - from,
    when from <= services.len()
    via reported_count_decreases
{
    let index = next_routed(services, from);
    if index >= services.len() {
        count
    } else {
        reported_count(services, index + 1, count + 1)
    }
}

#[via_fn]
proof fn reported_count_decreases(services: Seq<Service>, from: int, count: int) {
    lemma_next_routed(services, from);
}

/// Where the next service with a route is.
pub proof fn lemma_next_routed(services: Seq<Service>, from: int)
    requires
        from <= services.len(),
    ensures
        from <= next_routed(services, from) <= services.len(),
        next_routed(services, from) < services.len() && from >= 0
            ==> services[next_routed(services, from)].mode.routed(),
        forall|k: int|
            from <= k < next_routed(services, from) ==> !(#[trigger] services[k]).mode.routed(),
        routed_count(services, from) == routed_count(services, next_routed(services, from)),
    decreases services.len() - from,
{
    if from < services.len() && !services[from].mode.routed() {
        lemma_next_routed(services, from + 1);
    }
}

/// A run that meets no error reports as many routes as there are services that
/// get one.
pub proof fn every_route_is_counted(services: Seq<Service>, from: int, count: int)
    requires
        0 <= from <= services.len(),
    ensures
        reported_count(services, from, count) == count + routed_count(services, from),
    decreases services.len() - from,
{
    lemma_next_routed(services, from);
    let index = next_routed(services, from);
    if index < services.len() {
        every_route_is_counted(services, index + 1, count + 1);
    }
}

/// A request goes to the admin address, with the key in its header, and says that
/// its body is json.
pub proof fn requests_carry_the_key(
    base_url: Seq<char>,
    api_key: Seq<char>,
    method: Seq<char>,
    path: Seq<char>,
    body: Option<Seq<char>>,
)
    ensures
        ({
            let request = admin_request(base_url, api_key, method, path, body);
            &&& request.method == method && request.path == path && request.body == body
            &&& request.url == base_url + path
            &&& request.headers.len() == 2
            &&& request.headers[0] == ("X-API-KEY"@, api_key)
            &&& request.headers[1] == ("Content-Type"@, "application/json"@)
        }),
{
}

/// The route of a service is put under its client identifier, and its document is
/// made with the secret kept for that client; a proxied service needs none.
pub proof fn route_is_put_with_its_own_secret(
    base_url: Seq<char>,
    api_key: Seq<char>,
    service: Service,
    configuration: ServicesConfiguration,
    secrets: Map<Seq<char>, Seq<char>>,
    session_secret: Seq<char>,
)
    requires
        service.upstream is Some,
        service.mode == ServiceProtectionMode::Gate || service.mode == ServiceProtectionMode::Api
            || service.mode == ServiceProtectionMode::Proxy,
    ensures
        ({
            let name = configuration::secret_name(service.client_id@);
            let request = route_request(
                base_url,
                api_key,
                service,
                configuration,
                secrets,
                session_secret,
            );
            let path = "/apisix/admin/routes/"@ + service.client_id@;
            let proxied = service.mode == ServiceProtectionMode::Proxy;
            &&& !proxied && !secrets.contains_key(name) ==> request == Err::<
                AdminRequestView,
                ApisixErrorView,
            >(ApisixErrorView::MissingSecret(service.client_id@))
            &&& proxied || secrets.contains_key(name) ==> {
                let secret = if proxied {
                    Seq::empty()
                } else {
                    secrets[name]
                };
                &&& request is Ok
                &&& request->Ok_0.method == "PUT"@
                &&& request->Ok_0.path == path
                &&& request->Ok_0.url == base_url + path
                &&& request->Ok_0.headers == seq![
                    ("X-API-KEY"@, api_key),
                    ("Content-Type"@, "application/json"@),
                ]
                &&& request->Ok_0.body == Some(
                    json::json_text(
                        route::route_document(service, configuration, secret, session_secret)->Ok_0,
                    ),
                )
            }
        }),
{
    route::route_leads_to_its_service(service, configuration, Seq::empty(), session_secret);
    route::route_leads_to_its_service(
        service,
        configuration,
        secrets[configuration::secret_name(service.client_id@)],
        session_secret,
    );
}

/// An answer is accepted where its status is one of the two hundreds, and its body
/// is handed on. Any other is refused, and the error names the request, the status
/// and the first four hundred characters of the body.
pub proof fn only_success_is_accepted(
    method: Seq<char>,
    path: Seq<char>,
    response: ResponseView,
    error: HttpErrorView,
)
    ensures
        accepted(method, path, Err(error)) == Err::<Seq<char>, ApisixErrorView>(
            ApisixErrorView::Http(error),
        ),
        accepted(method, path, Ok(response)) is Ok <==> response.status >= 200 && response.status
            <= 299,
        accepted(method, path, Ok(response)) is Ok ==> accepted(method, path, Ok(response))->Ok_0
            == response.body,
        accepted(method, path, Ok(response)) matches Err(refused) ==> refused
            == (ApisixErrorView::AdminApi {
            method,
            path,
            status: response.status,
            body: if response.body.len() < 400 {
                response.body
            } else {
                response.body.take(400)
            },
        }),
{
    if response.body.len() == 400 {
        assert(response.body.take(400) =~= response.body);
    }
}

/// The routes are put one by one, in the order of the services; behind the last
/// one the run ends with their number.
pub proof fn routes_are_put_in_order(
    base_url: Seq<char>,
    api_key: Seq<char>,
    configuration: ServicesConfiguration,
    secrets: Map<Seq<char>, Seq<char>>,
    session_secret: Seq<char>,
    from: int,
    count: int,
)
    requires
        0 <= from <= configuration.services@.len(),
    ensures
        ({
            let services = configuration.services@;
            let (index, action) = routes_from(
                base_url,
                api_key,
                configuration,
                secrets,
                session_secret,
                from,
                count,
            );
            &&& from <= index <= services.len()
            &&& forall|k: int|
                from <= k < index ==> (#[trigger] services[k]).mode is Native
                    || services[k].mode is Unprotected
            &&& index == services.len() ==> action == RouteActionView::Finish(Ok(count))
            &&& index < services.len() ==> !(services[index].mode is Native
                || services[index].mode is Unprotected) && match route_request(
                base_url,
                api_key,
                services[index],
                configuration,
                secrets,
                session_secret,
            ) {
                Ok(request) => action == RouteActionView::Send(request),
                Err(error) => action == RouteActionView::Finish(Err(error)),
            }
        }),
{
    lemma_next_routed(configuration.services@, from);
}

} // verus!
