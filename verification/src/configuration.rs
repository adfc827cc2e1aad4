//! The configuration of the programs.

use crate::numbers::{format_u64, parse_i32, parse_u64};
use crate::numbers;
use crate::text::{cat2, cat3, cat4, char_vec, clone_opt, splitn_text, trim_text, upper_char};
use crate::text;
use vstd::prelude::*;

verus! {

/// How the database is reached.
pub struct PostgresDatabaseConfiguration {
    pub host: String,
    pub port: u16,
    pub name: String,
    pub user: String,
    pub password: String,
    pub pool_size: u32,
    pub connection_attempt: u32,
}

/// How the message broker is reached.
pub struct KafkaBrokerConfiguration {
    pub broker: String,
    pub topics: Vec<KafkaTopic>,
    pub group_id: String,
    pub security_protocol: String,
    pub sasl_mechanism: String,
    pub sasl_username: String,
    pub sasl_password: String,
}

/// A topic of the message broker.
pub struct KafkaTopic {
    pub name: String,
    pub num_partition: i32,
    pub offset: u64,
}

/// What becomes of the containers, volumes and networks in the end.
#[derive(Clone, Copy, Debug, PartialEq, Eq, Structural)]
pub struct DockerConfiguration {
    pub remove_containers_on_shutdown: bool,
    pub remove_volumes_on_shutdown: bool,
    pub remove_networks_on_shutdown: bool,
}

/// The configuration of the core program.
pub struct NinoverseCoreConfiguration {
    pub host: String,
    pub port: u16,
    pub database: PostgresDatabaseConfiguration,
    pub kafka: KafkaBrokerConfiguration,
    pub docker: DockerConfiguration,
}

/// The configuration of a program that owns no containers.
pub struct Configuration {
    pub host: String,
    pub port: u16,
    pub database: PostgresDatabaseConfiguration,
    pub kafka: KafkaBrokerConfiguration,
}

/// The contents of a topic.
#[verifier::ext_equal]
pub struct TopicView {
    pub name: Seq<char>,
    pub num_partition: int,
    pub offset: int,
}

impl View for KafkaTopic {
    type V = TopicView;

    open spec fn view(&self) -> TopicView {
        TopicView {
            name: self.name@,
            num_partition: self.num_partition as int,
            offset: self.offset as int,
        }
    }
}

/// The topic that a text of the form `name:num_partition:offset` describes,
/// white space around the three parts not counted, or why there is none.
pub open spec fn topic_of(text: Seq<char>) -> Result<TopicView, Seq<char>> {
    let parts = text::splitn(text, ':', 3);
    if parts.len() != 3 {
        Err("invalid topic '"@ + text + "': expected format 'name:num_partition:offset'"@)
    } else if text::trim(parts[0]).len() == 0 {
        Err("invalid topic '"@ + text + "': empty topic name"@)
    } else {
        let partitions = text::trim(parts[1]);
        let start = text::trim(parts[2]);
        match numbers::parse_int(partitions, i32::MIN as int, i32::MAX as int) {
            Err(error) => Err(
                "invalid num_partition '"@ + partitions + "' in topic '"@ + (text + "': "@
                    + error.description()),
            ),
            Ok(num_partition) => match numbers::parse_int(start, 0, u64::MAX as int) {
                Err(error) => Err(
                    "invalid offset '"@ + start + "' in topic '"@ + (text + "': "@
                        + error.description()),
                ),
                Ok(offset) => Ok(TopicView { name: text::trim(parts[0]), num_partition, offset }),
            },
        }
    }
}

/// Reads a topic of the form `name:num_partition:offset`.
pub fn parse_topic(topic_string: &str) -> (result: Result<KafkaTopic, String>)
    ensures
        match result {
            Ok(topic) => topic_of(topic_string@) == Ok::<TopicView, Seq<char>>(topic@),
            Err(message) => topic_of(topic_string@) == Err::<TopicView, Seq<char>>(message@),
        },
{
    let parts = splitn_text(topic_string, ':', 3);
    let ghost pieces = text::splitn(topic_string@, ':', 3);
    assert(forall|i: int| 0 <= i < parts@.len() ==> pieces[i] == (#[trigger] parts@[i])@);
    assert(pieces.len() == parts@.len());
    if parts.len() != 3 {
        return Err(
            cat3(
                "invalid topic '",
                topic_string,
                "': expected format 'name:num_partition:offset'",
            ),
        );
    }
    let name = trim_text(&parts[0]);
    let partitions = trim_text(&parts[1]);
    let start = trim_text(&parts[2]);
    if name.as_str().is_empty() {
        return Err(cat3("invalid topic '", topic_string, "': empty topic name"));
    }
    let num_partition: i32 = match parse_i32(&partitions) {
        Ok(number) => number,
        Err(error) => {
            let tail = cat3(topic_string, "': ", &error.message());
            return Err(cat4("invalid num_partition '", &partitions, "' in topic '", &tail));
        },
    };
    let offset: u64 = match parse_u64(&start) {
        Ok(number) => number,
        Err(error) => {
            let tail = cat3(topic_string, "': ", &error.message());
            return Err(cat4("invalid offset '", &start, "' in topic '", &tail));
        },
    };
    Ok(KafkaTopic { name, num_partition, offset })
}

/// The contents of a list of topics.
pub open spec fn topic_views(topics: Seq<KafkaTopic>) -> Seq<TopicView> {
    Seq::new(topics.len(), |i: int| topics[i]@)
}

/// The topics that a list of texts describes, up to the first that describes
/// none.
pub open spec fn topics_of(list: Seq<Seq<char>>) -> Result<Seq<TopicView>, Seq<char>>
    decreases list.len(),
{
    if list.len() == 0 {
        Ok(Seq::empty())
    } else {
        match topics_of(list.drop_last()) {
            Err(message) => Err(message),
            Ok(before) => match topic_of(list.last()) {
                Err(message) => Err(message),
                Ok(topic) => Ok(before.push(topic)),
            },
        }
    }
}

proof fn lemma_topics_prefix(list: Seq<Seq<char>>, upto: int)
    requires
        0 <= upto <= list.len(),
        topics_of(list.take(upto)) is Err,
    ensures
        topics_of(list) == topics_of(list.take(upto)),
    decreases list.len() - upto,
{
    if upto == list.len() {
        assert(list.take(upto) =~= list);
    } else {
        assert(list.take(upto + 1).drop_last() =~= list.take(upto));
        lemma_topics_prefix(list, upto + 1);
    }
}

/// Reads the topics of a configuration, in order.
pub fn parse_kafka_topics(raw_list: &Vec<String>) -> (result: Result<Vec<KafkaTopic>, String>)
    ensures
        match result {
            Ok(topics) => topics_of(text::texts(raw_list@)) == Ok::<Seq<TopicView>, Seq<char>>(
                topic_views(topics@),
            ),
            Err(message) => topics_of(text::texts(raw_list@)) == Err::<Seq<TopicView>, Seq<char>>(
                message@,
            ),
        },
{
    let ghost all = text::texts(raw_list@);
    let mut topics: Vec<KafkaTopic> = Vec::new();
    let mut i: usize = 0;
    assert(topic_views(topics@) =~= Seq::empty());
    while i < raw_list.len()
        invariant
            i <= raw_list@.len(),
            all == text::texts(raw_list@),
            topics_of(all.take(i as int)) == Ok::<Seq<TopicView>, Seq<char>>(
                topic_views(topics@),
            ),
        decreases raw_list@.len() - i,
    {
        assert(all.take(i + 1).drop_last() =~= all.take(i as int));
        assert(all.take(i + 1).last() == raw_list@[i as int]@);
        let ghost before = topic_views(topics@);
        match parse_topic(&raw_list[i]) {
            Ok(topic) => {
                let ghost found = topic@;
                topics.push(topic);
                assert(topic_views(topics@) =~= before.push(found));
            },
            Err(message) => {
                proof {
                    lemma_topics_prefix(all, i + 1);
                }
                return Err(message);
            },
        }
        i += 1;
    }
    assert(all.take(i as int) =~= all);
    Ok(topics)
}

impl PostgresDatabaseConfiguration {
    /// What may be shown of the configuration, name by name. The password is
    /// masked.
    pub open spec fn shown(&self) -> Seq<(Seq<char>, Seq<char>)> {
        seq![
            ("host"@, self.host@),
            ("port"@, numbers::digits(self.port as nat)),
            ("name"@, self.name@),
            ("user"@, self.user@),
            ("password"@, "***"@),
            ("pool_size"@, numbers::digits(self.pool_size as nat)),
        ]
    }

    /// What may be shown of the configuration, name by name. The password is
    /// masked.
    pub fn debug_fields(&self) -> (fields: Vec<(String, String)>)
        ensures
            crate::text::text_pairs(fields@) == self.shown(),
    {
        let fields = vec![
            ("host".to_owned(), self.host.clone()),
            ("port".to_owned(), format_u64(self.port as u64)),
            ("name".to_owned(), self.name.clone()),
            ("user".to_owned(), self.user.clone()),
            ("password".to_owned(), "***".to_owned()),
            ("pool_size".to_owned(), format_u64(self.pool_size as u64)),
        ];
        assert(crate::text::text_pairs(fields@) =~= self.shown());
        fields
    }

    /// What is shown does not depend on the password: two configurations that
    /// differ in it alone are shown alike.
    pub proof fn shown_hides_the_password(&self, other: &PostgresDatabaseConfiguration)
        requires
            self.host@ == other.host@,
            self.port == other.port,
            self.name@ == other.name@,
            self.user@ == other.user@,
            self.pool_size == other.pool_size,
        ensures
            self.shown() == other.shown(),
    {
    }
}

/// How a service is protected.
#[derive(Clone, Copy, Debug, PartialEq, Eq, Structural)]
pub enum ServiceProtectionMode {
    /// The gateway runs the OIDC authorization-code flow in front of an
    /// application that has no usable authentication of its own.
    Gate,
    /// The application speaks OIDC itself. A client is created and its secret
    /// kept, but the gateway is not placed in the request path.
    Native,
    /// The gateway validates a bearer token: no browser flow, no session cookie.
    Api,
    /// The gateway routes the request but adds no authentication. The upstream
    /// owns its own.
    Proxy,
    /// No validation is asked for.
    Unprotected,
}

impl ServiceProtectionMode {
    /// Whether a service in this mode gets a route.
    pub open spec fn routed(self) -> bool {
        self == ServiceProtectionMode::Gate || self == ServiceProtectionMode::Api || self
            == ServiceProtectionMode::Proxy
    }

    /// Whether a service in this mode presents an identity, and so has a client.
    pub open spec fn has_client(self) -> bool {
        self != ServiceProtectionMode::Proxy && self != ServiceProtectionMode::Unprotected
    }

    /// Whether a service in this mode gets a route.
    pub fn needs_apisix_route(self) -> (yes: bool)
        ensures
            yes == self.routed(),
    {
        matches!(
            self,
            ServiceProtectionMode::Gate | ServiceProtectionMode::Api | ServiceProtectionMode::Proxy
        )
    }

    /// Whether a service in this mode sends browsers through a login.
    pub fn is_browser_flow(self) -> (yes: bool)
        ensures
            yes == (self == ServiceProtectionMode::Gate),
    {
        matches!(self, ServiceProtectionMode::Gate)
    }

    /// Whether a service in this mode has a client of its own.
    pub fn needs_client(self) -> (yes: bool)
        ensures
            yes == self.has_client(),
    {
        !matches!(self, ServiceProtectionMode::Proxy | ServiceProtectionMode::Unprotected)
    }

    /// The name of the mode.
    pub open spec fn name(self) -> Seq<char> {
        match self {
            ServiceProtectionMode::Gate => "gate"@,
            ServiceProtectionMode::Native => "native"@,
            ServiceProtectionMode::Api => "api"@,
            ServiceProtectionMode::Proxy => "proxy"@,
            ServiceProtectionMode::Unprotected => "unprotected"@,
        }
    }

    /// The name of the mode.
    pub fn label(self) -> (text: String)
        ensures
            text@ == self.name(),
    {
        match self {
            ServiceProtectionMode::Gate => "gate".to_owned(),
            ServiceProtectionMode::Native => "native".to_owned(),
            ServiceProtectionMode::Api => "api".to_owned(),
            ServiceProtectionMode::Proxy => "proxy".to_owned(),
            ServiceProtectionMode::Unprotected => "unprotected".to_owned(),
        }
    }
}

/// A service behind the gateway.
pub struct Service {
    pub client_id: String,
    pub display_name: String,
    pub subdomain: String,
    /// The paths that the service claims on its host. Several services may share
    /// a host as long as their paths do not overlap.
    pub uris: Vec<String>,
    /// Decides where more than one route matches a request: the higher wins.
    pub priority: i32,
    pub upstream: Option<String>,
    pub group: String,
    pub mode: ServiceProtectionMode,
    pub native_redirect_url: Option<String>,
}

/// A person with an account.
pub struct Person {
    pub name: String,
    pub display_name: String,
    pub mail: Option<String>,
    pub legal_name: Option<String>,
    pub groups: Vec<String>,
}

/// The services and persons to provision.
pub struct ServicesConfiguration {
    pub domain: String,
    pub kanidm_origin: String,
    pub kanidm_cli_container: String,
    pub kanidm_admin: String,
    pub curl_container: String,
    pub apisix_admin_url: String,
    pub secrets_dir: String,
    pub set_userinfo_header: bool,
    pub tls_verify: bool,
    pub services: Vec<Service>,
    pub persons: Vec<Person>,
}

/// The host name of a subdomain.
pub open spec fn host_name(subdomain: Seq<char>, domain: Seq<char>) -> Seq<char> {
    subdomain + "."@ + domain
}

/// The address of a subdomain.
pub open spec fn base_address(subdomain: Seq<char>, domain: Seq<char>) -> Seq<char> {
    "https://"@ + host_name(subdomain, domain)
}

/// A letter of a client identifier in the name of its secret.
pub open spec fn secret_char(c: char) -> char {
    if c == '-' {
        '_'
    } else {
        text::ascii_upper(c)
    }
}

/// The name under which the secret of a client is kept.
pub open spec fn secret_name(client_id: Seq<char>) -> Seq<char> {
    "OIDC_SECRET_"@ + client_id.map_values(|c: char| secret_char(c))
}

impl Service {
    /// Where a login comes back to, in the modes that know it.
    pub open spec fn callback(&self, domain: Seq<char>) -> Option<Seq<char>> {
        match self.mode {
            ServiceProtectionMode::Gate => Some(
                base_address(self.subdomain@, domain) + "/oidc/callback"@,
            ),
            ServiceProtectionMode::Native => text::opt_text(self.native_redirect_url),
            _ => None,
        }
    }

    /// Where the OIDC configuration of the client is found.
    pub open spec fn discovery(&self, kanidm_origin: Seq<char>) -> Seq<char> {
        kanidm_origin + "/oauth2/openid/"@ + self.client_id@
            + "/.well-known/openid-configuration"@
    }

    /// The host name of the service.
    pub fn host(&self, configuration: &ServicesConfiguration) -> (host: String)
        ensures
            host@ == host_name(self.subdomain@, configuration.domain@),
    {
        cat3(&self.subdomain, ".", &configuration.domain)
    }

    /// The address of the service.
    pub fn base_url(&self, configuration: &ServicesConfiguration) -> (url: String)
        ensures
            url@ == base_address(self.subdomain@, configuration.domain@),
    {
        cat2("https://", &self.host(configuration))
    }

    /// Where a login comes back to.
    pub fn redirect_url(&self, configuration: &ServicesConfiguration) -> (url: Option<String>)
        ensures
            text::opt_text(url) == self.callback(configuration.domain@),
    {
        match self.mode {
            ServiceProtectionMode::Gate => Some(
                cat2(&self.base_url(configuration), "/oidc/callback"),
            ),
            ServiceProtectionMode::Native => clone_opt(&self.native_redirect_url),
            ServiceProtectionMode::Api => None,
            ServiceProtectionMode::Proxy => None,
            ServiceProtectionMode::Unprotected => None,
        }
    }

    /// Where the OIDC configuration of the client is found.
    pub fn discovery_url(&self, configuration: &ServicesConfiguration) -> (url: String)
        ensures
            url@ == self.discovery(configuration.kanidm_origin@),
    {
        cat4(
            &configuration.kanidm_origin,
            "/oauth2/openid/",
            &self.client_id,
            "/.well-known/openid-configuration",
        )
    }

    /// The name under which the secret of the client is kept.
    pub fn secret_key(&self) -> (key: String)
        ensures
            key@ == secret_name(self.client_id@),
    {
        let chars = char_vec(&self.client_id);
        let mut name = String::new();
        let mut i: usize = 0;
        while i < chars.len()
            invariant
                i <= chars@.len(),
                name@.len() == i,
                forall|j: int| 0 <= j < i ==> name@[j] == secret_char(chars@[j]),
            decreases chars@.len() - i,
        {
            let c = chars[i];
            if c == '-' {
                name.push('_');
            } else {
                name.push(upper_char(c));
            }
            i += 1;
        }
        assert(name@ =~= self.client_id@.map_values(|c: char| secret_char(c)));
        cat2("OIDC_SECRET_", &name)
    }
}

/// The container of the kanidm command line where none is configured.
pub fn default_kanidm_container() -> (name: String)
    ensures
        name@ == "kanidm-cli"@,
{
    "kanidm-cli".to_owned()
}

/// The kanidm account where none is configured.
pub fn default_kanidm_admin() -> (name: String)
    ensures
        name@ == "idm_admin"@,
{
    "idm_admin".to_owned()
}

/// The container that runs curl where none is configured.
pub fn default_curl_container() -> (name: String)
    ensures
        name@ == "apisix-curl"@,
{
    "apisix-curl".to_owned()
}

/// The address of the gateway's admin interface where none is configured.
pub fn default_admin_url() -> (url: String)
    ensures
        url@ == "http://apisix:9180"@,
{
    "http://apisix:9180".to_owned()
}

/// The directory of the secrets where none is configured.
pub fn default_secrets_dir() -> (dir: String)
    ensures
        dir@ == "./secrets"@,
{
    "./secrets".to_owned()
}

/// What a switch is set to where nothing is configured.
pub fn default_true() -> (flag: bool)
    ensures
        flag,
{
    true
}

/// The paths of a service where none are configured: all of them.
pub fn default_uris() -> (uris: Vec<String>)
    ensures
        text::texts(uris@) == seq!["/*"@],
{
    let uris = vec!["/*".to_owned()];
    assert(text::texts(uris@) =~= seq!["/*"@]);
    uris
}

/// A service is reached at its subdomain of the domain, over https. A gated one
/// is called back there, a native one where it says, and no other at all. Its
/// discovery document stands at kanidm, under its client identifier.
pub proof fn service_is_reached_at_its_subdomain(
    service: Service,
    domain: Seq<char>,
    kanidm_origin: Seq<char>,
)
    ensures
        host_name(service.subdomain@, domain) == service.subdomain@ + seq!['.'] + domain,
        base_address(service.subdomain@, domain) == "https://"@ + service.subdomain@ + seq!['.']
            + domain,
        service.mode == ServiceProtectionMode::Gate ==> service.callback(domain) == Some(
            "https://"@ + service.subdomain@ + seq!['.'] + domain + "/oidc/callback"@,
        ),
        service.mode == ServiceProtectionMode::Native ==> match service.native_redirect_url {
            Some(url) => service.callback(domain) == Some(url@),
            None => service.callback(domain) is None,
        },
        service.mode != ServiceProtectionMode::Gate && service.mode
            != ServiceProtectionMode::Native ==> service.callback(domain) is None,
        service.discovery(kanidm_origin) == kanidm_origin + "/oauth2/openid/"@ + service.client_id@
            + "/.well-known/openid-configuration"@,
{
    reveal_strlit(".");
    assert("."@ =~= seq!['.']);
    assert("https://"@ + host_name(service.subdomain@, domain) =~= "https://"@
        + service.subdomain@ + seq!['.'] + domain);
}

/// Gate, api and proxy get a route; gate, api and native get a client.
pub proof fn modes_get_what_they_need(mode: ServiceProtectionMode)
    ensures
        mode.routed() <==> !(mode is Native || mode is Unprotected),
        mode.has_client() <==> !(mode is Proxy || mode is Unprotected),
        mode is Gate ==> mode.name() == "gate"@,
        mode is Native ==> mode.name() == "native"@,
        mode is Api ==> mode.name() == "api"@,
        mode is Proxy ==> mode.name() == "proxy"@,
        mode is Unprotected ==> mode.name() == "unprotected"@,
{
}

/// The name of a secret is the client identifier in capitals, with underscores
/// for its dashes, behind a fixed beginning; every other character stays.
pub proof fn secret_is_named_after_its_client(client_id: Seq<char>, i: int)
    ensures
        secret_name(client_id).len() == 12 + client_id.len(),
        secret_name(client_id).take(12) == "OIDC_SECRET_"@,
        0 <= i < client_id.len() ==> {
            let c = client_id[i];
            &&& c == '-' ==> secret_name(client_id)[12 + i] == '_'
            &&& 'a' <= c <= 'z' ==> secret_name(client_id)[12 + i] as int == c as int - 32
            &&& c != '-' && !('a' <= c <= 'z') ==> secret_name(client_id)[12 + i] == c
        },
{
    reveal_strlit("OIDC_SECRET_");
    assert(secret_name(client_id).take(12) =~= "OIDC_SECRET_"@);
}

proof fn lemma_number_word(n: int)
    ensures
        text::trim(numbers::decimal(n)) == numbers::decimal(n),
        !numbers::decimal(n).contains(':'),
{
    let word = numbers::decimal(n);
    numbers::numbers_are_written_in_digits(n);
    assert forall|i: int| 0 <= i < word.len() implies word[i] != ':' && !text::is_whitespace(
        #[trigger] word[i],
    ) by {
        if i >= 1 {
            assert('0' <= word[i] <= '9');
        }
    }
    let nothing = Seq::<char>::empty();
    text::white_space_around_goes(nothing, word, nothing);
    assert(nothing + word + nothing =~= word);
}

/// A topic is read as it is written: its name, its partitions and its offset,
/// between colons.
pub proof fn topic_is_read_as_written(name: Seq<char>, partitions: int, offset: int)
    requires
        !name.contains(':'),
        name.len() > 0,
        !text::is_whitespace(name[0]),
        !text::is_whitespace(name.last()),
        i32::MIN <= partitions <= i32::MAX,
        0 <= offset <= u64::MAX,
    ensures
        topic_of(
            name + seq![':'] + numbers::decimal(partitions) + seq![':'] + numbers::decimal(offset),
        ) == Ok::<TopicView, Seq<char>>(TopicView { name, num_partition: partitions, offset }),
{
    let middle = numbers::decimal(partitions);
    let last = numbers::decimal(offset);
    let text = name + seq![':'] + middle + seq![':'] + last;
    lemma_number_word(partitions);
    lemma_number_word(offset);
    numbers::parse_inverts_decimal(partitions, i32::MIN as int, i32::MAX as int);
    numbers::parse_inverts_decimal(offset, 0, u64::MAX as int);
    let nothing = Seq::<char>::empty();
    text::white_space_around_goes(nothing, name, nothing);
    assert(nothing + name + nothing =~= name);
    reveal_with_fuel(text::splitn, 4);
    let tail = middle + seq![':'] + last;
    text::parts_are_told_apart(name, tail, ':');
    text::parts_are_told_apart(middle, last, ':');
    assert(text =~= name + seq![':'] + tail);
    assert(text::splitn(text, ':', 3) =~= seq![name, middle, last]);
}

/// A topic without a name is refused, and so is one without partitions or
/// without an offset.
pub proof fn topic_needs_its_parts(name: Seq<char>, rest: Seq<char>)
    requires
        !name.contains(':'),
    ensures
        topic_of(name) == Err::<TopicView, Seq<char>>(
            "invalid topic '"@ + name + "': expected format 'name:num_partition:offset'"@,
        ),
        !rest.contains(':') ==> topic_of(name + seq![':'] + rest) == Err::<TopicView, Seq<char>>(
            "invalid topic '"@ + (name + seq![':'] + rest)
                + "': expected format 'name:num_partition:offset'"@,
        ),
        (forall|i: int| 0 <= i < name.len() ==> text::is_whitespace(#[trigger] name[i])) ==> topic_of(
            name + seq![':'] + rest,
        ) is Err,
{
    reveal_with_fuel(text::splitn, 4);
    text::whole_text_is_not_cut(name, ':');
    text::parts_are_told_apart(name, rest, ':');
    if !rest.contains(':') {
        text::whole_text_is_not_cut(rest, ':');
        assert(text::splitn(name + seq![':'] + rest, ':', 3) =~= seq![name, rest]);
    }
    if forall|i: int| 0 <= i < name.len() ==> text::is_whitespace(#[trigger] name[i]) {
        let nothing = Seq::<char>::empty();
        text::white_space_around_goes(name, nothing, nothing);
        assert(name + nothing + nothing =~= name);
        assert(text::splitn(name + seq![':'] + rest, ':', 3)[0] =~= name);
    }
}

/// A list of topics is read topic by topic, in order; the first that is refused
/// refuses the list.
pub proof fn topics_are_read_one_by_one(list: Seq<Seq<char>>)
    ensures
        topics_of(list) matches Ok(topics) ==> topics.len() == list.len() && forall|i: int|
            0 <= i < list.len() ==> topic_of(list[i]) == Ok::<TopicView, Seq<char>>(
                #[trigger] topics[i],
            ),
        topics_of(list) matches Err(message) ==> exists|k: int|
            0 <= k < list.len() && topic_of(#[trigger] list[k]) == Err::<TopicView, Seq<char>>(
                message,
            ) && forall|j: int| 0 <= j < k ==> topic_of(#[trigger] list[j]) is Ok,
    decreases list.len(),
{
    if list.len() > 0 {
        let init = list.drop_last();
        topics_are_read_one_by_one(init);
        if let Err(message) = topics_of(init) {
            let k = choose|k: int|
                0 <= k < init.len() && topic_of(#[trigger] init[k]) == Err::<TopicView, Seq<char>>(
                    message,
                ) && forall|j: int| 0 <= j < k ==> topic_of(#[trigger] init[j]) is Ok;
            assert(list[k] == init[k]);
            assert forall|j: int| 0 <= j < k implies topic_of(#[trigger] list[j]) is Ok by {
                assert(init[j] == list[j]);
            }
        } else if let Err(message) = topics_of(list) {
            let k = list.len() - 1;
            let topics = topics_of(init)->Ok_0;
            assert(topic_of(list[k]) == Err::<TopicView, Seq<char>>(message));
            assert forall|j: int| 0 <= j < k implies topic_of(#[trigger] list[j]) is Ok by {
                assert(topic_of(init[j]) == Ok::<TopicView, Seq<char>>(topics[j]));
            }
        }
    }
}

/// A topic whose partitions or offset is no number of its range is refused, and
/// the error says which of the two it is, what was read, and where.
pub proof fn topic_numbers_have_to_be_numbers(
    name: Seq<char>,
    partitions: Seq<char>,
    offset: Seq<char>,
)
    requires
        !name.contains(':'),
        !partitions.contains(':'),
        text::trim(name).len() > 0,
    ensures
        ({
            let text = name + seq![':'] + partitions + seq![':'] + offset;
            let first = text::trim(partitions);
            let second = text::trim(offset);
            &&& numbers::parse_int(first, -0x8000_0000, 0x7fff_ffff) matches Err(error)
                ==> topic_of(text) == Err::<TopicView, Seq<char>>(
                "invalid num_partition '"@ + first + "' in topic '"@ + text + "': "@
                    + error.description(),
            )
            &&& numbers::parse_int(first, -0x8000_0000, 0x7fff_ffff) is Ok
                ==> match numbers::parse_int(second, 0, 0xffff_ffff_ffff_ffff) {
                Err(error) => topic_of(text) == Err::<TopicView, Seq<char>>(
                    "invalid offset '"@ + second + "' in topic '"@ + text + "': "@
                        + error.description(),
                ),
                Ok(start) => topic_of(text) == Ok::<TopicView, Seq<char>>(
                    TopicView {
                        name: text::trim(name),
                        num_partition: numbers::parse_int(
                            first,
                            -0x8000_0000,
                            0x7fff_ffff,
                        )->Ok_0,
                        offset: start,
                    },
                ),
            }
        }),
{
    let text = name + seq![':'] + partitions + seq![':'] + offset;
    let tail = partitions + seq![':'] + offset;
    reveal_with_fuel(text::splitn, 4);
    text::parts_are_told_apart(name, tail, ':');
    text::parts_are_told_apart(partitions, offset, ':');
    assert(text =~= name + seq![':'] + tail);
    assert(text::splitn(text, ':', 3) =~= seq![name, partitions, offset]);
    let first = text::trim(partitions);
    let second = text::trim(offset);
    if let Err(error) = numbers::parse_int(first, i32::MIN as int, i32::MAX as int) {
        assert("invalid num_partition '"@ + first + "' in topic '"@ + (text + "': "@
            + error.description()) =~= "invalid num_partition '"@ + first + "' in topic '"@ + text
            + "': "@ + error.description());
    }
    if let Err(error) = numbers::parse_int(second, 0, u64::MAX as int) {
        assert("invalid offset '"@ + second + "' in topic '"@ + (text + "': "@
            + error.description()) =~= "invalid offset '"@ + second + "' in topic '"@ + text
            + "': "@ + error.description());
    }
}

/// All of a database's configuration is shown as it is, but for the password.
pub proof fn all_but_the_password_is_shown(database: PostgresDatabaseConfiguration)
    ensures
        database.shown() == seq![
            ("host"@, database.host@),
            ("port"@, numbers::digits(database.port as nat)),
            ("name"@, database.name@),
            ("user"@, database.user@),
            ("password"@, seq!['*', '*', '*']),
            ("pool_size"@, numbers::digits(database.pool_size as nat)),
        ],
{
    reveal_strlit("***");
    assert("***"@ =~= seq!['*', '*', '*']);
}

} // verus!
