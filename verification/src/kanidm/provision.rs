//! Clients, groups and persons in kanidm.

use crate::configuration::{Person, Service, ServicesConfiguration};
use crate::configuration;
use crate::exec::{ExecOutcome, ExecOutcomeView, OutputView};
use crate::exec;
use crate::kanidm::error::{KanidmError, KanidmErrorView};
use crate::kanidm::operations::{
    build_argv, KanidmAction, KanidmActionView, KanidmRun, Operation, OperationView, Probe,
    ProbeView, RunView,
};
use crate::kanidm::operations;
use crate::kanidm::output::{read_secret, reset_url};
use crate::kanidm::output;
use crate::secret_map::SecretMap;
use crate::text::clone_all;
use crate::text;
use vstd::prelude::*;

verus! {

/// A person after provisioning, as it is reported to the operator.
pub struct ProvisionedPerson {
    pub name: String,
    pub display_name: String,
    pub groups: Vec<String>,
    /// Only where this run created the account: the link with which the person
    /// sets their own credentials. An account that was there is left alone.
    pub reset_url: Option<String>,
}

/// The contents of a `ProvisionedPerson`.
#[verifier::ext_equal]
pub struct ProvisionedView {
    pub name: Seq<char>,
    pub display_name: Seq<char>,
    pub groups: Seq<Seq<char>>,
    pub reset_url: Option<Seq<char>>,
}

impl View for ProvisionedPerson {
    type V = ProvisionedView;

    open spec fn view(&self) -> ProvisionedView {
        ProvisionedView {
            name: self.name@,
            display_name: self.display_name@,
            groups: text::texts(self.groups@),
            reset_url: text::opt_text(self.reset_url),
        }
    }
}

/// The contents of a list of provisioned persons.
pub open spec fn provisioned_views(persons: Seq<ProvisionedPerson>) -> Seq<ProvisionedView> {
    Seq::new(persons.len(), |i: int| persons[i]@)
}

// ---------------------------------------------------------------------------
// Operations
// ---------------------------------------------------------------------------

/// A command that is run in any case.
pub open spec fn always(act: Seq<Seq<char>>) -> OperationView {
    OperationView { probe: None, act }
}

/// A command that creates an entry where there is none with this name.
pub open spec fn unless_exists(
    look: Seq<Seq<char>>,
    name: Seq<char>,
    act: Seq<Seq<char>>,
) -> OperationView {
    OperationView { probe: Some((look, ProbeView::Exists { name })), act }
}

/// Makes sure that a group exists.
pub open spec fn group_operation(group: Seq<char>) -> OperationView {
    unless_exists(seq!["group"@, "get"@, group], group, seq!["group"@, "create"@, group])
}

/// Makes sure that a person is a member of a group.
pub open spec fn member_operation(group: Seq<char>, name: Seq<char>) -> OperationView {
    OperationView {
        probe: Some((seq!["group"@, "list-members"@, group], ProbeView::Member { name })),
        act: seq!["group"@, "add-members"@, group, name],
    }
}

/// Makes sure that a person exists.
pub open spec fn person_operation(name: Seq<char>, display_name: Seq<char>) -> OperationView {
    unless_exists(
        seq!["person"@, "get"@, name],
        name,
        seq!["person"@, "create"@, name, display_name],
    )
}

/// Applies the attributes of a person, so that the configuration stays
/// authoritative.
pub open spec fn attributes_operation(person: Person) -> OperationView {
    let base = seq!["person"@, "update"@, person.name@, "-i"@, person.display_name@];
    let with_mail = match person.mail {
        Some(mail) => base.push("-m"@).push(mail@),
        None => base,
    };
    always(
        match person.legal_name {
            Some(legal_name) => with_mail.push("-l"@).push(legal_name@),
            None => with_mail,
        },
    )
}

/// Makes the link with which a person sets their credentials.
pub open spec fn reset_operation(name: Seq<char>) -> OperationView {
    always(seq!["person"@, "credential"@, "create-reset-token"@, name])
}

/// Makes sure that a client exists.
pub open spec fn client_operation(
    client_id: Seq<char>,
    display_name: Seq<char>,
    landing: Seq<char>,
) -> OperationView {
    unless_exists(
        seq!["system"@, "oauth2"@, "get"@, client_id],
        client_id,
        seq!["system"@, "oauth2"@, "create"@, client_id, display_name, landing],
    )
}

/// Adds the address that a login comes back to.
pub open spec fn redirect_operation(client_id: Seq<char>, url: Seq<char>) -> OperationView {
    always(seq!["system"@, "oauth2"@, "add-redirect-url"@, client_id, url])
}

/// Applies the scopes of a group.
pub open spec fn scope_operation(client_id: Seq<char>, group: Seq<char>) -> OperationView {
    always(
        seq![
            "system"@,
            "oauth2"@,
            "update-scope-map"@,
            client_id,
            group,
            "openid"@,
            "profile"@,
            "email"@,
            "groups"@,
        ],
    )
}

/// Asks for short user names.
pub open spec fn short_name_operation(client_id: Seq<char>) -> OperationView {
    always(seq!["system"@, "oauth2"@, "prefer-short-username"@, client_id])
}

/// Shows the secret of a client.
pub open spec fn secret_operation(client_id: Seq<char>) -> OperationView {
    always(seq!["system"@, "oauth2"@, "show-basic-secret"@, client_id])
}

/// Makes sure that a person is in groups that exist.
pub open spec fn membership_operations(groups: Seq<Seq<char>>, name: Seq<char>) -> Seq<
    OperationView,
>
    decreases groups.len(),
{
    if groups.len() == 0 {
        Seq::empty()
    } else {
        membership_operations(groups.drop_last(), name).push(
            group_operation(groups.last()),
        ).push(member_operation(groups.last(), name))
    }
}

/// Everything that provisions a person, but for the link of a new one.
pub open spec fn person_operations(person: Person) -> Seq<OperationView> {
    seq![
        person_operation(person.name@, person.display_name@),
        attributes_operation(person),
    ] + membership_operations(text::texts(person.groups@), person.name@)
}

/// Everything that provisions the client of a service.
pub open spec fn client_operations(service: Service, domain: Seq<char>) -> Seq<OperationView> {
    let base = seq![
        group_operation(service.group@),
        client_operation(
            service.client_id@,
            service.display_name@,
            configuration::base_address(service.subdomain@, domain),
        ),
    ];
    let with_redirect = match service.callback(domain) {
        Some(url) => base.push(redirect_operation(service.client_id@, url)),
        None => base,
    };
    with_redirect.push(scope_operation(service.client_id@, service.group@)).push(
        short_name_operation(service.client_id@),
    )
}

fn always_run(act: Vec<String>) -> (operation: Operation)
    ensures
        operation@ == always(text::texts(act@)),
{
    Operation { probe: None, act }
}

fn run_unless_exists(look: Vec<String>, name: &str, act: Vec<String>) -> (operation: Operation)
    ensures
        operation@ == unless_exists(text::texts(look@), name@, text::texts(act@)),
{
    Operation { probe: Some((look, Probe::Exists { name: name.to_owned() })), act }
}

/// Copies three words.
fn words3(a: &str, b: &str, c: &str) -> (words: Vec<String>)
    ensures
        text::texts(words@) == seq![a@, b@, c@],
{
    let words = vec![a.to_owned(), b.to_owned(), c.to_owned()];
    assert(text::texts(words@) =~= seq![a@, b@, c@]);
    words
}

/// Copies four words.
fn words4(a: &str, b: &str, c: &str, d: &str) -> (words: Vec<String>)
    ensures
        text::texts(words@) == seq![a@, b@, c@, d@],
{
    let words = vec![a.to_owned(), b.to_owned(), c.to_owned(), d.to_owned()];
    assert(text::texts(words@) =~= seq![a@, b@, c@, d@]);
    words
}

fn group_step(group: &str) -> (operation: Operation)
    ensures
        operation@ == group_operation(group@),
{
    run_unless_exists(
        words3("group", "get", group),
        group,
        words3("group", "create", group),
    )
}

fn member_step(group: &str, name: &str) -> (operation: Operation)
    ensures
        operation@ == member_operation(group@, name@),
{
    Operation {
        probe: Some(
            (words3("group", "list-members", group), Probe::Member { name: name.to_owned() }),
        ),
        act: words4("group", "add-members", group, name),
    }
}

fn person_step(person: &Person) -> (operation: Operation)
    ensures
        operation@ == person_operation(person.name@, person.display_name@),
{
    run_unless_exists(
        words3("person", "get", &person.name),
        &person.name,
        words4("person", "create", &person.name, &person.display_name),
    )
}

/// Applies the attributes of a person.
fn apply_person_attributes(person: &Person) -> (operation: Operation)
    ensures
        operation@ == attributes_operation(*person),
{
    let mut args = words4("person", "update", &person.name, "-i");
    let ghost head = text::texts(args@);
    args.push(person.display_name.clone());
    assert(text::texts(args@) =~= head.push(person.display_name@));
    assert(text::texts(args@) =~= seq![
        "person"@,
        "update"@,
        person.name@,
        "-i"@,
        person.display_name@,
    ]);
    if let Some(mail) = &person.mail {
        let ghost before = text::texts(args@);
        args.push("-m".to_owned());
        args.push(mail.clone());
        assert(text::texts(args@) =~= before.push("-m"@).push(mail@));
    }
    if let Some(legal_name) = &person.legal_name {
        let ghost before = text::texts(args@);
        args.push("-l".to_owned());
        args.push(legal_name.clone());
        assert(text::texts(args@) =~= before.push("-l"@).push(legal_name@));
    }
    always_run(args)
}

fn reset_step(name: &str) -> (operation: Operation)
    ensures
        operation@ == reset_operation(name@),
{
    always_run(words4("person", "credential", "create-reset-token", name))
}

fn secret_step(client_id: &str) -> (operation: Operation)
    ensures
        operation@ == secret_operation(client_id@),
{
    always_run(words4("system", "oauth2", "show-basic-secret", client_id))
}

/// Everything that provisions a person, but for the link of a new one.
fn person_steps(person: &Person) -> (operations: Vec<Operation>)
    ensures
        operations::operation_views(operations@) == person_operations(*person),
{
    let mut operations = vec![person_step(person), apply_person_attributes(person)];
    let ghost base = operations::operation_views(operations@);
    assert(base =~= seq![
        person_operation(person.name@, person.display_name@),
        attributes_operation(*person),
    ]);
    let ghost groups = text::texts(person.groups@);
    let mut i: usize = 0;
    assert(base =~= base + membership_operations(groups.take(0), person.name@));
    while i < person.groups.len()
        invariant
            i <= person.groups@.len(),
            groups == text::texts(person.groups@),
            operations::operation_views(operations@) == base + membership_operations(
                groups.take(i as int),
                person.name@,
            ),
        decreases person.groups@.len() - i,
    {
        assert(groups.take(i + 1).drop_last() =~= groups.take(i as int));
        assert(groups.take(i + 1).last() == person.groups@[i as int]@);
        let ghost before = operations::operation_views(operations@);
        let first = group_step(&person.groups[i]);
        let second = member_step(&person.groups[i], &person.name);
        let ghost added = (first@, second@);
        operations.push(first);
        operations.push(second);
        assert(operations::operation_views(operations@) =~= before.push(added.0).push(added.1));
        i += 1;
        assert(operations::operation_views(operations@) =~= base + membership_operations(
            groups.take(i as int),
            person.name@,
        ));
    }
    assert(groups.take(i as int) =~= groups);
    operations
}

/// Everything that provisions the client of a service.
fn client_steps(service: &Service, configuration: &ServicesConfiguration) -> (operations: Vec<
    Operation,
>)
    ensures
        operations::operation_views(operations@) == client_operations(*service, configuration.domain@),
{
    let landing = service.base_url(configuration);
    let mut create = words4("system", "oauth2", "create", &service.client_id);
    let ghost create_head = text::texts(create@);
    create.push(service.display_name.clone());
    create.push(landing);
    assert(text::texts(create@) =~= create_head.push(service.display_name@).push(
        configuration::base_address(service.subdomain@, configuration.domain@),
    ));
    assert(text::texts(create@) =~= seq![
        "system"@,
        "oauth2"@,
        "create"@,
        service.client_id@,
        service.display_name@,
        configuration::base_address(service.subdomain@, configuration.domain@),
    ]);
    let mut operations = vec![
        group_step(&service.group),
        run_unless_exists(
            words4("system", "oauth2", "get", &service.client_id),
            &service.client_id,
            create,
        ),
    ];
    let ghost base = operations::operation_views(operations@);
    assert(base =~= seq![
        group_operation(service.group@),
        client_operation(
            service.client_id@,
            service.display_name@,
            configuration::base_address(service.subdomain@, configuration.domain@),
        ),
    ]);
    if let Some(url) = service.redirect_url(configuration) {
        let ghost target = url@;
        let mut redirect = words4("system", "oauth2", "add-redirect-url", &service.client_id);
        let ghost redirect_head = text::texts(redirect@);
        redirect.push(url);
        assert(text::texts(redirect@) =~= redirect_head.push(target));
        assert(text::texts(redirect@) =~= seq![
            "system"@,
            "oauth2"@,
            "add-redirect-url"@,
            service.client_id@,
            target,
        ]);
        operations.push(always_run(redirect));
        assert(operations::operation_views(operations@) =~= base.push(
            redirect_operation(service.client_id@, target),
        ));
    }
    let ghost before = operations::operation_views(operations@);
    let mut scope = words4("system", "oauth2", "update-scope-map", &service.client_id);
    let ghost scope_head = text::texts(scope@);
    scope.push(service.group.clone());
    scope.push("openid".to_owned());
    scope.push("profile".to_owned());
    scope.push("email".to_owned());
    scope.push("groups".to_owned());
    assert(text::texts(scope@) =~= scope_head.push(service.group@).push("openid"@).push(
        "profile"@,
    ).push("email"@).push("groups"@));
    assert(text::texts(scope@) =~= seq![
        "system"@,
        "oauth2"@,
        "update-scope-map"@,
        service.client_id@,
        service.group@,
        "openid"@,
        "profile"@,
        "email"@,
        "groups"@,
    ]);
    operations.push(always_run(scope));
    operations.push(
        always_run(words4("system", "oauth2", "prefer-short-username", &service.client_id)),
    );
    assert(operations::operation_views(operations@) =~= before.push(
        scope_operation(service.client_id@, service.group@),
    ).push(short_name_operation(service.client_id@)));
    operations
}

// ---------------------------------------------------------------------------
// Persons
// ---------------------------------------------------------------------------

/// What is reported of a person.
pub open spec fn provisioned(person: Person, url: Option<Seq<char>>) -> ProvisionedView {
    ProvisionedView {
        name: person.name@,
        display_name: person.display_name@,
        groups: text::texts(person.groups@),
        reset_url: url,
    }
}

/// Whether the notes of a run are complete.
pub open spec fn noted(run: RunView) -> bool {
    run.acted.len() == run.index && run.printed.len() == run.index
}

/// The state of the provisioning of persons.
#[verifier::ext_equal]
pub struct PersonsView {
    /// The person under way.
    pub index: int,
    /// Whether the link of a new person is under way.
    pub resetting: bool,
    pub run: RunView,
    pub provisioned: Seq<ProvisionedView>,
}

/// The provisioning of persons, one after the other.
pub struct PersonsRun {
    pub index: usize,
    pub resetting: bool,
    pub run: KanidmRun,
    pub provisioned: Vec<ProvisionedPerson>,
}

impl View for PersonsRun {
    type V = PersonsView;

    open spec fn view(&self) -> PersonsView {
        PersonsView {
            index: self.index as int,
            resetting: self.resetting,
            run: self.run@,
            provisioned: provisioned_views(self.provisioned@),
        }
    }
}

/// Turns to the person at `index`.
pub open spec fn persons_enter(
    account: Seq<char>,
    persons: Seq<Person>,
    index: int,
    done: Seq<ProvisionedView>,
) -> (PersonsView, KanidmActionView) {
    let operations = if index < persons.len() {
        person_operations(persons[index])
    } else {
        Seq::empty()
    };
    let begun = operations::run_start(account, operations);
    (
        PersonsView { index, resetting: false, run: begun.0, provisioned: done },
        begun.1,
    )
}

/// How the provisioning of persons goes on. A person whose account was created
/// gets a link; then it is the next person's turn.
pub open spec fn persons_next(
    account: Seq<char>,
    origin: Seq<char>,
    persons: Seq<Person>,
    state: PersonsView,
    result: ExecOutcomeView,
) -> (PersonsView, KanidmActionView)
    recommends
        0 <= state.index < persons.len(),
        operations::waits(state.run),
{
    let (run, action) = operations::run_next(state.run, result);
    let person = persons[state.index];
    match action {
        KanidmActionView::Finish(Ok(_)) => if !state.resetting && run.acted[0] {
            let begun = operations::run_start(account, seq![reset_operation(person.name@)]);
            (PersonsView { resetting: true, run: begun.0, ..state }, begun.1)
        } else {
            let url = if state.resetting {
                Some(output::reset_address(origin, run.printed[0]))
            } else {
                None
            };
            persons_enter(
                account,
                persons,
                state.index + 1,
                state.provisioned.push(provisioned(person, url)),
            )
        },
        _ => (PersonsView { run, ..state }, action),
    }
}

// ---------------------------------------------------------------------------
// Clients
// ---------------------------------------------------------------------------

/// The position of the first service from `from` on that has a client.
pub open spec fn next_client(services: Seq<Service>, from: int) -> int
    decreases services.len() - from,
{
    if from >= services.len() {
        services.len() as int
    } else if services[from].mode.has_client() {
        from
    } else {
        next_client(services, from + 1)
    }
}

/// The state of the provisioning of clients.
#[verifier::ext_equal]
pub struct ClientsView {
    /// The service under way.
    pub index: int,
    pub run: RunView,
    pub secrets: Map<Seq<char>, Seq<char>>,
}

/// The provisioning of the clients of services, one after the other.
pub struct ClientsRun {
    pub index: usize,
    pub run: KanidmRun,
    pub secrets: SecretMap,
}

impl View for ClientsRun {
    type V = ClientsView;

    open spec fn view(&self) -> ClientsView {
        ClientsView { index: self.index as int, run: self.run@, secrets: self.secrets@ }
    }
}

/// Turns to the first service from `from` on that has a client: provisions it,
/// then asks for its secret.
pub open spec fn clients_enter(
    account: Seq<char>,
    configuration: ServicesConfiguration,
    from: int,
    secrets: Map<Seq<char>, Seq<char>>,
) -> (ClientsView, KanidmActionView) {
    let services = configuration.services@;
    let index = next_client(services, from);
    let operations = if index < services.len() {
        client_operations(services[index], configuration.domain@).push(
            secret_operation(services[index].client_id@),
        )
    } else {
        Seq::empty()
    };
    let begun = operations::run_start(account, operations);
    (ClientsView { index, run: begun.0, secrets }, begun.1)
}

/// How the provisioning of clients goes on. The secret of each client is kept
/// under the name of its secret.
pub open spec fn clients_next(
    account: Seq<char>,
    configuration: ServicesConfiguration,
    state: ClientsView,
    result: ExecOutcomeView,
) -> (ClientsView, KanidmActionView)
    recommends
        0 <= state.index < configuration.services@.len(),
        operations::waits(state.run),
{
    let (run, action) = operations::run_next(state.run, result);
    let client_id = configuration.services@[state.index].client_id@;
    match action {
        KanidmActionView::Finish(Ok(_)) => match output::secret_shown(client_id, run.printed.last()) {
            Err(error) => (ClientsView { run, ..state }, KanidmActionView::Finish(Err(error))),
            Ok(secret) => clients_enter(
                account,
                configuration,
                state.index + 1,
                state.secrets.insert(configuration::secret_name(client_id), secret),
            ),
        },
        _ => (ClientsView { run, ..state }, action),
    }
}

// ---------------------------------------------------------------------------
// The command line client
// ---------------------------------------------------------------------------

/// Kanidm, reached through its command line.
pub struct Kanidm<R> {
    runner: R,
    container: String,
    account: String,
    origin: String,
}

/// Whether there is a session, given the outcome of the command that needs one.
pub open spec fn session_verdict(
    container: Seq<char>,
    account: Seq<char>,
    result: ExecOutcomeView,
) -> Result<(), KanidmErrorView> {
    match result {
        Err(error) => Err(KanidmErrorView::Exec(error)),
        Ok(output) => if output.code == 0 {
            Ok(())
        } else {
            Err(KanidmErrorView::NoKanidmSession { container, account })
        },
    }
}

impl<R> Kanidm<R> {
    /// The runner of the commands.
    pub closed spec fn uses(&self) -> R {
        self.runner
    }

    /// The container of the command line.
    pub closed spec fn runs_in(&self) -> Seq<char> {
        self.container@
    }

    /// The account of the session.
    pub closed spec fn acts_as(&self) -> Seq<char> {
        self.account@
    }

    /// The public address of kanidm.
    pub closed spec fn serves_at(&self) -> Seq<char> {
        self.origin@
    }

    /// The configured kanidm, reached with `runner`.
    pub fn new(runner: R, configuration: &ServicesConfiguration) -> (kanidm: Self)
        ensures
            kanidm.uses() == runner,
            kanidm.runs_in() == configuration.kanidm_cli_container@,
            kanidm.acts_as() == configuration.kanidm_admin@,
            kanidm.serves_at() == configuration.kanidm_origin@,
    {
        Self {
            runner,
            container: configuration.kanidm_cli_container.clone(),
            account: configuration.kanidm_admin.clone(),
            origin: configuration.kanidm_origin.clone(),
        }
    }

    /// The runner of the commands.
    pub fn runner(&self) -> (runner: &R)
        ensures
            *runner == self.uses(),
    {
        &self.runner
    }

    /// The command line of a kanidm command.
    pub fn argv(&self, args: &Vec<String>) -> (argv: Vec<String>)
        ensures
            text::texts(argv@) == operations::kanidm_argv(self.acts_as(), text::texts(args@)),
    {
        build_argv(&self.account, args)
    }

    /// The command that needs a session.
    pub fn session_probe(&self) -> (argv: Vec<String>)
        ensures
            text::texts(argv@) == operations::kanidm_argv(self.acts_as(), seq!["system"@, "oauth2"@, "list"@]),
    {
        self.argv(&words3("system", "oauth2", "list"))
    }

    /// Decides whether there is a session, given the outcome of the command that
    /// needs one.
    pub fn check_session(&self, result: ExecOutcome) -> (verdict: Result<(), KanidmError>)
        ensures
            match verdict {
                Ok(_) => session_verdict(self.runs_in(), self.acts_as(), exec::outcome(result)) is Ok,
                Err(error) => session_verdict(self.runs_in(), self.acts_as(), exec::outcome(result))
                    == Err::<(), KanidmErrorView>(error@),
            },
    {
        match result {
            Err(error) => Err(KanidmError::Exec(error)),
            Ok(output) => if output.success() {
                Ok(())
            } else {
                Err(
                    KanidmError::NoKanidmSession {
                        container: self.container.clone(),
                        account: self.account.clone(),
                    },
                )
            },
        }
    }

    /// Begins to make sure that a group exists.
    pub fn ensure_group(&self, group: &str) -> (begun: (KanidmRun, KanidmAction))
        ensures
            (begun.0@, begun.1@) == operations::run_start(self.acts_as(), seq![group_operation(group@)]),
    {
        let operations = vec![group_step(group)];
        assert(operations::operation_views(operations@) =~= seq![group_operation(group@)]);
        KanidmRun::begin(&self.account, operations)
    }

    /// Begins to make sure that a person exists. The account was created where
    /// the run notes that its command was needed.
    pub fn ensure_person(&self, person: &Person) -> (begun: (KanidmRun, KanidmAction))
        ensures
            (begun.0@, begun.1@) == operations::run_start(
                self.acts_as(),
                seq![person_operation(person.name@, person.display_name@)],
            ),
    {
        let operations = vec![person_step(person)];
        assert(operations::operation_views(operations@) =~= seq![
            person_operation(person.name@, person.display_name@),
        ]);
        KanidmRun::begin(&self.account, operations)
    }

    /// Begins to make sure that a group exists and that a person is in it.
    pub fn ensure_membership(&self, group: &str, name: &str) -> (begun: (KanidmRun, KanidmAction))
        ensures
            (begun.0@, begun.1@) == operations::run_start(
                self.acts_as(),
                seq![group_operation(group@), member_operation(group@, name@)],
            ),
    {
        let operations = vec![group_step(group), member_step(group, name)];
        assert(operations::operation_views(operations@) =~= seq![
            group_operation(group@),
            member_operation(group@, name@),
        ]);
        KanidmRun::begin(&self.account, operations)
    }

    /// Begins to make the link with which a person sets their credentials.
    pub fn credential_reset_url(&self, name: &str) -> (begun: (KanidmRun, KanidmAction))
        ensures
            (begun.0@, begun.1@) == operations::run_start(self.acts_as(), seq![reset_operation(name@)]),
    {
        let operations = vec![reset_step(name)];
        assert(operations::operation_views(operations@) =~= seq![reset_operation(name@)]);
        KanidmRun::begin(&self.account, operations)
    }

    /// The link in what the command printed, on the public address of kanidm.
    pub fn reset_url_from(&self, stdout: &str) -> (url: String)
        ensures
            url@ == output::reset_address(self.serves_at(), stdout@),
    {
        reset_url(&self.origin, stdout)
    }

    /// Begins to provision the client of a service.
    pub fn provision_client(&self, service: &Service, configuration: &ServicesConfiguration) -> (
        begun: (KanidmRun, KanidmAction))
        ensures
            (begun.0@, begun.1@) == operations::run_start(
                self.acts_as(),
                client_operations(*service, configuration.domain@),
            ),
    {
        KanidmRun::begin(&self.account, client_steps(service, configuration))
    }

    /// Begins to ask for the secret of a client.
    pub fn basic_secret(&self, client_id: &str) -> (begun: (KanidmRun, KanidmAction))
        ensures
            (begun.0@, begun.1@) == operations::run_start(self.acts_as(), seq![secret_operation(client_id@)]),
    {
        let operations = vec![secret_step(client_id)];
        assert(operations::operation_views(operations@) =~= seq![secret_operation(client_id@)]);
        KanidmRun::begin(&self.account, operations)
    }

    /// Begins to provision a person, but for the link of a new one.
    pub fn provision_person(&self, person: &Person) -> (begun: (KanidmRun, KanidmAction))
        ensures
            (begun.0@, begun.1@) == operations::run_start(self.acts_as(), person_operations(*person)),
    {
        KanidmRun::begin(&self.account, person_steps(person))
    }

    /// Turns to the person at `index`.
    fn turn_to_person(
        &self,
        persons: &Vec<Person>,
        index: usize,
        provisioned: Vec<ProvisionedPerson>,
    ) -> (turned: (PersonsRun, KanidmAction))
        ensures
            (turned.0@, turned.1@) == persons_enter(
                self.acts_as(),
                persons@,
                index as int,
                provisioned_views(provisioned@),
            ),
    {
        let (run, action) = if index < persons.len() {
            self.provision_person(&persons[index])
        } else {
            let operations: Vec<Operation> = Vec::new();
            assert(operations::operation_views(operations@) =~= Seq::empty());
            KanidmRun::begin(&self.account, operations)
        };
        (PersonsRun { index, resetting: false, run, provisioned }, action)
    }

    /// Begins to provision the persons, in order.
    pub fn provision_persons(&self, configuration: &ServicesConfiguration) -> (begun: (
        PersonsRun,
        KanidmAction,
    ))
        ensures
            (begun.0@, begun.1@) == persons_enter(
                self.acts_as(),
                configuration.persons@,
                0,
                Seq::empty(),
            ),
    {
        let provisioned: Vec<ProvisionedPerson> = Vec::new();
        assert(provisioned_views(provisioned@) =~= Seq::empty());
        self.turn_to_person(&configuration.persons, 0, provisioned)
    }

    /// Takes the output of the command that was run and says what is to be done
    /// next.
    pub fn next_person(
        &self,
        configuration: &ServicesConfiguration,
        state: PersonsRun,
        result: ExecOutcome,
    ) -> (next: (PersonsRun, KanidmAction))
        requires
            state.index < configuration.persons@.len(),
            operations::waits(state.run@),
            noted(state.run@),
        ensures
            (next.0@, next.1@) == persons_next(
                self.acts_as(),
                self.serves_at(),
                configuration.persons@,
                state@,
                exec::outcome(result),
            ),
    {
        let persons = &configuration.persons;
        let total: usize = persons.len();
        let PersonsRun { index, resetting, mut run, mut provisioned } = state;
        proof {
            runs_keep_their_notes(run@, exec::outcome(result));
        }
        let action = run.step(result);
        match action {
            KanidmAction::Finish(Ok(_)) => {},
            _ => {
                return (PersonsRun { index, resetting, run, provisioned }, action);
            },
        }
        let person = &persons[index];
        assert(run@.printed.len() == run.printed@.len());
        if !resetting && run.acted[0] {
            let operations = vec![reset_step(&person.name)];
            assert(operations::operation_views(operations@) =~= seq![reset_operation(person.name@)]);
            let (run, action) = KanidmRun::begin(&self.account, operations);
            return (PersonsRun { index, resetting: true, run, provisioned }, action);
        }
        let reset_url = if resetting {
            Some(reset_url(&self.origin, &run.printed[0]))
        } else {
            None
        };
        let ghost before = provisioned_views(provisioned@);
        let entry = ProvisionedPerson {
            name: person.name.clone(),
            display_name: person.display_name.clone(),
            groups: clone_all(&person.groups),
            reset_url,
        };
        let ghost seen = entry@;
        provisioned.push(entry);
        assert(provisioned_views(provisioned@) =~= before.push(seen));
        self.turn_to_person(persons, index + 1, provisioned)
    }

    /// Turns to the first service from `from` on that has a client.
    fn turn_to_client(
        &self,
        configuration: &ServicesConfiguration,
        from: usize,
        secrets: SecretMap,
    ) -> (turned: (ClientsRun, KanidmAction))
        requires
            from <= configuration.services@.len(),
        ensures
            (turned.0@, turned.1@) == clients_enter(
                self.acts_as(),
                *configuration,
                from as int,
                secrets@,
            ),
    {
        let services = &configuration.services;
        let mut index: usize = from;
        while index < services.len() && !services[index].mode.needs_client()
            invariant
                index <= services@.len(),
                next_client(services@, from as int) == next_client(services@, index as int),
            decreases services@.len() - index,
        {
            index += 1;
        }
        let mut operations: Vec<Operation> = Vec::new();
        assert(operations::operation_views(operations@) =~= Seq::empty());
        if index < services.len() {
            operations = client_steps(&services[index], configuration);
            let ghost before = operations::operation_views(operations@);
            operations.push(secret_step(&services[index].client_id));
            assert(operations::operation_views(operations@) =~= before.push(
                secret_operation(services@[index as int].client_id@),
            ));
        }
        let (run, action) = KanidmRun::begin(&self.account, operations);
        (ClientsRun { index, run, secrets }, action)
    }

    /// Begins to provision the clients of all services that have one, in order.
    /// A service that never presents an identity has none: a client of its own
    /// would leave a group and a secret that nothing reads.
    pub fn provision_all(&self, configuration: &ServicesConfiguration) -> (begun: (
        ClientsRun,
        KanidmAction,
    ))
        ensures
            (begun.0@, begun.1@) == clients_enter(
                self.acts_as(),
                *configuration,
                0,
                Map::empty(),
            ),
    {
        self.turn_to_client(configuration, 0, SecretMap::new())
    }

    /// Takes the output of the command that was run and says what is to be done
    /// next.
    pub fn next_client(
        &self,
        configuration: &ServicesConfiguration,
        state: ClientsRun,
        result: ExecOutcome,
    ) -> (next: (ClientsRun, KanidmAction))
        requires
            state.index < configuration.services@.len(),
            operations::waits(state.run@),
            noted(state.run@),
        ensures
            (next.0@, next.1@) == clients_next(
                self.acts_as(),
                *configuration,
                state@,
                exec::outcome(result),
            ),
    {
        let total: usize = configuration.services.len();
        let ClientsRun { index, mut run, secrets } = state;
        proof {
            runs_keep_their_notes(run@, exec::outcome(result));
        }
        let action = run.step(result);
        match action {
            KanidmAction::Finish(Ok(_)) => {},
            _ => {
                return (ClientsRun { index, run, secrets }, action);
            },
        }
        let service = &configuration.services[index];
        assert(run@.printed.len() == run.printed@.len());
        let last: usize = run.printed.len() - 1;
        match read_secret(&service.client_id, &run.printed[last]) {
            Err(error) => (
                ClientsRun { index, run, secrets },
                KanidmAction::Finish(Err(error)),
            ),
            Ok(secret) => {
                let secrets = secrets.insert(service.secret_key(), secret);
                self.turn_to_client(configuration, index + 1, secrets)
            },
        }
    }
}

// ---------------------------------------------------------------------------
// Laws of provisioning
// ---------------------------------------------------------------------------

/// The notes of a run stay complete.
pub proof fn runs_keep_their_notes(run: RunView, result: ExecOutcomeView)
    requires
        operations::waits(run),
        noted(run),
    ensures
        noted(operations::run_next(run, result).0),
        noted(operations::run_start(run.account, run.operations).0),
{
}

/// An account that was there is left alone: a person gets a link only where the
/// run had to create them.
pub proof fn only_new_persons_get_a_link(
    account: Seq<char>,
    origin: Seq<char>,
    persons: Seq<Person>,
    state: PersonsView,
    result: ExecOutcomeView,
)
    requires
        0 <= state.index < persons.len(),
        operations::waits(state.run),
        noted(state.run),
        !state.resetting,
        operations::run_next(state.run, result).1 == KanidmActionView::Finish(Ok(())),
        !operations::run_next(state.run, result).0.acted[0],
    ensures
        persons_next(account, origin, persons, state, result) == persons_enter(
            account,
            persons,
            state.index + 1,
            state.provisioned.push(provisioned(persons[state.index], None)),
        ),
{
}

/// No client is made for a service that never presents an identity: whatever
/// service the provisioning turns to has one.
pub proof fn services_without_identity_get_no_client(services: Seq<Service>, from: int)
    requires
        0 <= from <= services.len(),
    ensures
        from <= next_client(services, from) <= services.len(),
        next_client(services, from) < services.len() ==> services[next_client(
            services,
            from,
        )].mode.has_client(),
        forall|k: int|
            from <= k < next_client(services, from) ==> !(#[trigger] services[k]).mode.has_client(),
    decreases services.len() - from,
{
    if from < services.len() && !services[from].mode.has_client() {
        services_without_identity_get_no_client(services, from + 1);
    }
}

/// Where the provisioning of clients is after some commands, given what each of
/// them came to.
pub open spec fn clients_after(
    account: Seq<char>,
    configuration: ServicesConfiguration,
    results: Seq<ExecOutcomeView>,
) -> (ClientsView, KanidmActionView)
    decreases results.len(),
{
    if results.len() == 0 {
        clients_enter(account, configuration, 0, Map::empty())
    } else {
        clients_next(
            account,
            configuration,
            clients_after(account, configuration, results.drop_last()).0,
            results.last(),
        )
    }
}

/// Whether the provisioning of clients can have seen these results: each time it
/// had asked for a command.
pub open spec fn clients_possible(
    account: Seq<char>,
    configuration: ServicesConfiguration,
    results: Seq<ExecOutcomeView>,
) -> bool
    decreases results.len(),
{
    results.len() == 0 || {
        &&& clients_possible(account, configuration, results.drop_last())
        &&& clients_after(account, configuration, results.drop_last()).1 is Run
    }
}

/// Whether a name is that of the secret of one of the first services that have a
/// client.
pub open spec fn names_client(services: Seq<Service>, upto: int, name: Seq<char>) -> bool {
    exists|k: int|
        0 <= k < upto && (#[trigger] services[k]).mode.has_client() && name
            == configuration::secret_name(services[k].client_id@)
}

/// Whether secrets are those of the first services that have a client.
spec fn collected(
    services: Seq<Service>,
    upto: int,
    secrets: Map<Seq<char>, Seq<char>>,
) -> bool {
    forall|name: Seq<char>| #[trigger]
        secrets.contains_key(name) <==> names_client(services, upto, name)
}

proof fn lemma_clients_enter(
    account: Seq<char>,
    configuration: ServicesConfiguration,
    from: int,
    secrets: Map<Seq<char>, Seq<char>>,
)
    requires
        0 <= from <= configuration.services@.len(),
        collected(configuration.services@, from, secrets),
    ensures
        ({
            let services = configuration.services@;
            let (state, action) = clients_enter(account, configuration, from, secrets);
            &&& 0 <= state.index <= services.len()
            &&& collected(services, state.index, state.secrets)
            &&& action is Run ==> state.index < services.len()
                && services[state.index].mode.has_client()
            &&& action == KanidmActionView::Finish(Ok(())) ==> state.index == services.len()
        }),
{
    let services = configuration.services@;
    let index = next_client(services, from);
    services_without_identity_get_no_client(services, from);
    assert forall|name: Seq<char>| #[trigger] secrets.contains_key(name) <==> names_client(
        services,
        index,
        name,
    ) by {
        if names_client(services, from, name) {
            let k = choose|k: int|
                0 <= k < from && (#[trigger] services[k]).mode.has_client() && name
                    == configuration::secret_name(services[k].client_id@);
            assert(0 <= k < index && services[k].mode.has_client());
        }
        if names_client(services, index, name) {
            let k = choose|k: int|
                0 <= k < index && (#[trigger] services[k]).mode.has_client() && name
                    == configuration::secret_name(services[k].client_id@);
            assert(k < from);
        }
    }
}

proof fn lemma_clients_after(
    account: Seq<char>,
    configuration: ServicesConfiguration,
    results: Seq<ExecOutcomeView>,
)
    requires
        clients_possible(account, configuration, results),
    ensures
        ({
            let services = configuration.services@;
            let (state, action) = clients_after(account, configuration, results);
            &&& 0 <= state.index <= services.len()
            &&& collected(services, state.index, state.secrets)
            &&& action is Run ==> state.index < services.len()
                && services[state.index].mode.has_client()
            &&& action == KanidmActionView::Finish(Ok(())) ==> state.index == services.len()
        }),
    decreases results.len(),
{
    let services = configuration.services@;
    if results.len() == 0 {
        lemma_clients_enter(account, configuration, 0, Map::empty());
    } else {
        lemma_clients_after(account, configuration, results.drop_last());
        let state = clients_after(account, configuration, results.drop_last()).0;
        let (run, action) = operations::run_next(state.run, results.last());
        let client_id = services[state.index].client_id@;
        if action == KanidmActionView::Finish(Ok(())) {
            if let Ok(secret) = output::secret_shown(client_id, run.printed.last()) {
                let name = configuration::secret_name(client_id);
                let secrets = state.secrets.insert(name, secret);
                assert forall|other: Seq<char>| #[trigger]
                    secrets.contains_key(other) <==> names_client(
                        services,
                        state.index + 1,
                        other,
                    ) by {
                    if names_client(services, state.index, other) {
                        let k = choose|k: int|
                            0 <= k < state.index && (#[trigger] services[k]).mode.has_client()
                                && other == configuration::secret_name(services[k].client_id@);
                        assert(0 <= k < state.index + 1 && services[k].mode.has_client());
                    }
                    if other == name {
                        assert(services[state.index].mode.has_client());
                    }
                    if names_client(services, state.index + 1, other) && other != name {
                        let k = choose|k: int|
                            0 <= k < state.index + 1 && (#[trigger] services[k]).mode.has_client()
                                && other == configuration::secret_name(services[k].client_id@);
                        assert(k < state.index);
                        assert(names_client(services, state.index, other));
                        assert(state.secrets.contains_key(other));
                    }
                    if secrets.contains_key(other) && other != name {
                        assert(state.secrets.contains_key(other));
                    }
                }
                lemma_clients_enter(account, configuration, state.index + 1, secrets);
            }
        }
    }
}

/// A provisioning of clients that ends well has the secret of every service that
/// has a client, each under its name, and no other, whatever kanidm printed on
/// the way.
pub proof fn every_client_gives_its_secret(
    account: Seq<char>,
    configuration: ServicesConfiguration,
    results: Seq<ExecOutcomeView>,
)
    requires
        clients_possible(account, configuration, results),
        clients_after(account, configuration, results).1 == KanidmActionView::Finish(Ok(())),
    ensures
        forall|name: Seq<char>| #[trigger]
            clients_after(account, configuration, results).0.secrets.contains_key(name)
                <==> names_client(
                configuration.services@,
                configuration.services@.len() as int,
                name,
            ),
{
    lemma_clients_after(account, configuration, results);
}

/// Where the provisioning of persons is after some commands, given what each of
/// them came to.
pub open spec fn persons_after(
    account: Seq<char>,
    origin: Seq<char>,
    persons: Seq<Person>,
    results: Seq<ExecOutcomeView>,
) -> (PersonsView, KanidmActionView)
    decreases results.len(),
{
    if results.len() == 0 {
        persons_enter(account, persons, 0, Seq::empty())
    } else {
        persons_next(
            account,
            origin,
            persons,
            persons_after(account, origin, persons, results.drop_last()).0,
            results.last(),
        )
    }
}

/// Whether the provisioning of persons can have seen these results: each time it
/// had asked for a command.
pub open spec fn persons_possible(
    account: Seq<char>,
    origin: Seq<char>,
    persons: Seq<Person>,
    results: Seq<ExecOutcomeView>,
) -> bool
    decreases results.len(),
{
    results.len() == 0 || {
        &&& persons_possible(account, origin, persons, results.drop_last())
        &&& persons_after(account, origin, persons, results.drop_last()).1 is Run
    }
}

/// Whether a report is on the first persons, in order, whatever the links.
pub open spec fn reports_on(
    persons: Seq<Person>,
    upto: int,
    reported: Seq<ProvisionedView>,
) -> bool {
    &&& reported.len() == upto
    &&& forall|i: int|
        0 <= i < upto ==> #[trigger] reported[i] == provisioned(persons[i], reported[i].reset_url)
}

proof fn lemma_persons_after(
    account: Seq<char>,
    origin: Seq<char>,
    persons: Seq<Person>,
    results: Seq<ExecOutcomeView>,
)
    requires
        persons_possible(account, origin, persons, results),
    ensures
        ({
            let (state, action) = persons_after(account, origin, persons, results);
            &&& 0 <= state.index <= persons.len()
            &&& reports_on(persons, state.index, state.provisioned)
            &&& action is Run ==> state.index < persons.len()
            &&& action == KanidmActionView::Finish(Ok(())) ==> state.index == persons.len()
        }),
    decreases results.len(),
{
    if results.len() > 0 {
        lemma_persons_after(account, origin, persons, results.drop_last());
    }
}

/// A provisioning of persons that ends well reports on every person, in order,
/// whatever kanidm printed on the way.
pub proof fn every_person_is_reported(
    account: Seq<char>,
    origin: Seq<char>,
    persons: Seq<Person>,
    results: Seq<ExecOutcomeView>,
)
    requires
        persons_possible(account, origin, persons, results),
        persons_after(account, origin, persons, results).1 == KanidmActionView::Finish(Ok(())),
    ensures
        reports_on(
            persons,
            persons.len() as int,
            persons_after(account, origin, persons, results).0.provisioned,
        ),
{
    lemma_persons_after(account, origin, persons, results);
}

proof fn lemma_membership(groups: Seq<Seq<char>>, name: Seq<char>, k: int)
    ensures
        membership_operations(groups, name).len() == 2 * groups.len(),
        0 <= k < groups.len() ==> membership_operations(groups, name)[2 * k] == (OperationView {
            probe: Some(
                (seq!["group"@, "get"@, groups[k]], ProbeView::Exists { name: groups[k] }),
            ),
            act: seq!["group"@, "create"@, groups[k]],
        }) && membership_operations(groups, name)[2 * k + 1] == (OperationView {
            probe: Some(
                (seq!["group"@, "list-members"@, groups[k]], ProbeView::Member { name }),
            ),
            act: seq!["group"@, "add-members"@, groups[k], name],
        }),
    decreases groups.len(),
{
    if groups.len() > 0 {
        let init = groups.drop_last();
        lemma_membership(init, name, k);
        if 0 <= k < init.len() {
            assert(groups[k] == init[k]);
        }
    }
}

/// A person joins every group that it lists, in order: for each one there is an
/// operation that makes sure that the group exists, and right behind it one that
/// looks for the person among the group's members and else adds it.
pub proof fn person_joins_every_group(person: Person, k: int)
    requires
        0 <= k < person.groups@.len(),
    ensures
        person_operations(person).len() == 2 + 2 * person.groups@.len(),
        person_operations(person)[2 + 2 * k] == (OperationView {
            probe: Some(
                (
                    seq!["group"@, "get"@, person.groups@[k]@],
                    ProbeView::Exists { name: person.groups@[k]@ },
                ),
            ),
            act: seq!["group"@, "create"@, person.groups@[k]@],
        }),
        person_operations(person)[3 + 2 * k] == (OperationView {
            probe: Some(
                (
                    seq!["group"@, "list-members"@, person.groups@[k]@],
                    ProbeView::Member { name: person.name@ },
                ),
            ),
            act: seq!["group"@, "add-members"@, person.groups@[k]@, person.name@],
        }),
{
    lemma_membership(text::texts(person.groups@), person.name@, k);
    let front = seq![
        person_operation(person.name@, person.display_name@),
        attributes_operation(person),
    ];
    let rest = membership_operations(text::texts(person.groups@), person.name@);
    assert((front + rest)[2 + 2 * k] == rest[2 * k]);
    assert((front + rest)[3 + 2 * k] == rest[2 * k + 1]);
}

/// A person is made first, where kanidm has none of that name; then its
/// attributes are brought up to date, with a mail address and a legal name where
/// it has them.
pub proof fn person_is_made_and_brought_up_to_date(person: Person)
    ensures
        person_operations(person).len() == 2 + 2 * person.groups@.len(),
        person_operations(person)[0] == (OperationView {
            probe: Some(
                (
                    seq!["person"@, "get"@, person.name@],
                    ProbeView::Exists { name: person.name@ },
                ),
            ),
            act: seq!["person"@, "create"@, person.name@, person.display_name@],
        }),
        person_operations(person)[1].probe is None,
        person_operations(person)[1].act == seq![
            "person"@,
            "update"@,
            person.name@,
            "-i"@,
            person.display_name@,
        ] + (match person.mail {
            Some(mail) => seq!["-m"@, mail@],
            None => Seq::empty(),
        }) + (match person.legal_name {
            Some(legal_name) => seq!["-l"@, legal_name@],
            None => Seq::empty(),
        }),
{
    lemma_membership(text::texts(person.groups@), person.name@, 0);
    assert(person_operations(person)[1].act =~= seq![
        "person"@,
        "update"@,
        person.name@,
        "-i"@,
        person.display_name@,
    ] + (match person.mail {
        Some(mail) => seq!["-m"@, mail@],
        None => Seq::empty(),
    }) + (match person.legal_name {
        Some(legal_name) => seq!["-l"@, legal_name@],
        None => Seq::empty(),
    }));
}

/// A client is set up as its service says: its group exists before it does, it
/// lands at the service's address, it is called back where the service is, its
/// group gets the scopes, and it prefers short names.
pub proof fn client_is_set_up_as_its_service_says(service: Service, domain: Seq<char>)
    ensures
        ({
            let made = client_operations(service, domain);
            let landing = "https://"@ + service.subdomain@ + "."@ + domain;
            let called = service.callback(domain) is Some;
            &&& made.len() == if called {
                5int
            } else {
                4int
            }
            &&& made[0] == (OperationView {
                probe: Some(
                    (
                        seq!["group"@, "get"@, service.group@],
                        ProbeView::Exists { name: service.group@ },
                    ),
                ),
                act: seq!["group"@, "create"@, service.group@],
            })
            &&& made[1] == (OperationView {
                probe: Some(
                    (
                        seq!["system"@, "oauth2"@, "get"@, service.client_id@],
                        ProbeView::Exists { name: service.client_id@ },
                    ),
                ),
                act: seq![
                    "system"@,
                    "oauth2"@,
                    "create"@,
                    service.client_id@,
                    service.display_name@,
                    landing,
                ],
            })
            &&& called ==> made[2] == (OperationView {
                probe: None,
                act: seq![
                    "system"@,
                    "oauth2"@,
                    "add-redirect-url"@,
                    service.client_id@,
                    service.callback(domain)->0,
                ],
            })
            &&& made[made.len() - 2] == (OperationView {
                probe: None,
                act: seq![
                    "system"@,
                    "oauth2"@,
                    "update-scope-map"@,
                    service.client_id@,
                    service.group@,
                    "openid"@,
                    "profile"@,
                    "email"@,
                    "groups"@,
                ],
            })
            &&& made[made.len() - 1] == (OperationView {
                probe: None,
                act: seq!["system"@, "oauth2"@, "prefer-short-username"@, service.client_id@],
            })
        }),
{
    assert(configuration::base_address(service.subdomain@, domain) =~= "https://"@
        + service.subdomain@ + "."@ + domain);
}

/// The provisioning of clients turns to the first service that has one, sets it
/// up, and asks for its secret last.
pub proof fn client_is_asked_for_its_secret_last(
    account: Seq<char>,
    configuration: ServicesConfiguration,
    from: int,
    secrets: Map<Seq<char>, Seq<char>>,
)
    requires
        0 <= from < configuration.services@.len(),
        configuration.services@[from].mode.has_client(),
    ensures
        ({
            let service = configuration.services@[from];
            let state = clients_enter(account, configuration, from, secrets).0;
            &&& state.index == from && state.secrets == secrets
            &&& state.run.account == account
            &&& state.run.operations == client_operations(service, configuration.domain@).push(
                OperationView {
                    probe: None,
                    act: seq!["system"@, "oauth2"@, "show-basic-secret"@, service.client_id@],
                },
            )
        }),
{
}

proof fn lemma_last_output_is_read(
    account: Seq<char>,
    configuration: ServicesConfiguration,
    state: ClientsView,
    output: OutputView,
)
    requires
        0 <= state.index < configuration.services@.len(),
        noted(state.run),
        state.run.acting,
        0 <= state.run.index,
        state.run.index == state.run.operations.len() - 1,
        output.code == 0,
    ensures
        ({
            let client_id = configuration.services@[state.index].client_id@;
            let (next, action) = clients_next(account, configuration, state, Ok(output));
            match output::secret_shown(client_id, output.stdout) {
                Ok(secret) => next.secrets == state.secrets.insert(
                    configuration::secret_name(client_id),
                    secret,
                ),
                Err(error) => action == KanidmActionView::Finish(Err(error)),
            }
        }),
{
    let (run, action) = operations::run_next(state.run, Ok(output));
    assert(run.printed == state.run.printed.push(output.stdout));
    assert(action == KanidmActionView::Finish(Ok(())));
}

/// What the last command of a client prints, without the white space around it,
/// is kept as the secret of that client, and the other secrets stay.
pub proof fn printed_secret_is_kept(
    account: Seq<char>,
    configuration: ServicesConfiguration,
    state: ClientsView,
    code: i64,
    stderr: Seq<char>,
    front: Seq<char>,
    secret: Seq<char>,
    back: Seq<char>,
)
    requires
        0 <= state.index < configuration.services@.len(),
        noted(state.run),
        state.run.acting,
        0 <= state.run.index,
        state.run.index == state.run.operations.len() - 1,
        code == 0,
        secret.len() > 0,
        forall|i: int| 0 <= i < front.len() ==> text::is_whitespace(#[trigger] front[i]),
        forall|i: int| 0 <= i < back.len() ==> text::is_whitespace(#[trigger] back[i]),
        forall|i: int| 0 <= i < secret.len() ==> !text::is_whitespace(#[trigger] secret[i]),
    ensures
        clients_next(
            account,
            configuration,
            state,
            Ok((OutputView { code, stdout: front + secret + back, stderr })),
        ).0.secrets == state.secrets.insert(
            configuration::secret_name(configuration.services@[state.index].client_id@),
            secret,
        ),
        clients_next(
            account,
            configuration,
            state,
            Ok((OutputView { code, stdout: front, stderr })),
        ).1 == KanidmActionView::Finish(
            Err(
                KanidmErrorView::Other(
                    "empty basic secret returned for '"@
                        + configuration.services@[state.index].client_id@ + "'"@,
                ),
            ),
        ),
{
    let client_id = configuration.services@[state.index].client_id@;
    output::secret_is_what_was_printed(client_id, front, secret, back);
    lemma_last_output_is_read(
        account,
        configuration,
        state,
        OutputView { code, stdout: front + secret + back, stderr },
    );
    lemma_last_output_is_read(
        account,
        configuration,
        state,
        OutputView { code, stdout: front, stderr },
    );
}

/// A person that had to be made is asked for a link of its own, under its name.
pub proof fn new_person_gets_a_link(
    account: Seq<char>,
    origin: Seq<char>,
    persons: Seq<Person>,
    state: PersonsView,
    result: ExecOutcomeView,
)
    requires
        0 <= state.index < persons.len(),
        operations::waits(state.run),
        noted(state.run),
        !state.resetting,
        operations::run_next(state.run, result).1 == KanidmActionView::Finish(Ok(())),
        operations::run_next(state.run, result).0.acted[0],
    ensures
        ({
            let (next, action) = persons_next(account, origin, persons, state, result);
            let name = persons[state.index].name@;
            &&& action == KanidmActionView::Run(
                seq![
                    "kanidm"@,
                    "person"@,
                    "credential"@,
                    "create-reset-token"@,
                    name,
                    "--name"@,
                    account,
                ],
            )
            &&& next.resetting && next.index == state.index && next.provisioned
                == state.provisioned
            &&& next.run.acting && next.run.index == 0 && next.run.operations.len() == 1
            &&& next.run.acted.len() == 0 && next.run.printed.len() == 0
        }),
{
    let name = persons[state.index].name@;
    assert(operations::kanidm_argv(account, reset_operation(name).act) =~= seq![
        "kanidm"@,
        "person"@,
        "credential"@,
        "create-reset-token"@,
        name,
        "--name"@,
        account,
    ]);
}

/// The link that a new person got is reported with the person, and the
/// provisioning turns to the next one.
pub proof fn link_is_reported_with_its_person(
    account: Seq<char>,
    origin: Seq<char>,
    persons: Seq<Person>,
    state: PersonsView,
    output: OutputView,
)
    requires
        0 <= state.index < persons.len(),
        state.resetting,
        noted(state.run),
        state.run.acting,
        state.run.index == 0,
        state.run.operations.len() == 1,
        output.code == 0,
    ensures
        ({
            let next = persons_next(account, origin, persons, state, Ok(output)).0;
            let person = persons[state.index];
            let reported = next.provisioned.last();
            &&& next.index == state.index + 1 && !next.resetting
            &&& next.provisioned.len() == state.provisioned.len() + 1
            &&& next.provisioned.drop_last() == state.provisioned
            &&& reported.name == person.name@ && reported.display_name == person.display_name@
            &&& reported.groups.len() == person.groups@.len()
            &&& forall|i: int|
                0 <= i < person.groups@.len() ==> #[trigger] reported.groups[i]
                    == person.groups@[i]@
            &&& reported.reset_url == Some(output::reset_address(origin, output.stdout))
        }),
{
    let next = persons_next(account, origin, persons, state, Ok(output)).0;
    assert(next.provisioned.drop_last() =~= state.provisioned);
}

/// The provisioning turns to the persons one by one, each with its own
/// operations, and is through behind the last one.
pub proof fn persons_are_turned_to_in_order(
    account: Seq<char>,
    persons: Seq<Person>,
    index: int,
    done: Seq<ProvisionedView>,
)
    requires
        0 <= index <= persons.len(),
    ensures
        ({
            let (state, action) = persons_enter(account, persons, index, done);
            &&& state.index == index && !state.resetting && state.provisioned == done
            &&& index == persons.len() ==> action == KanidmActionView::Finish(Ok(()))
            &&& index < persons.len() ==> state.run.operations == person_operations(persons[index])
                && action == KanidmActionView::Run(
                seq!["kanidm"@, "person"@, "get"@, persons[index].name@, "--name"@, account],
            )
        }),
{
    if index < persons.len() {
        assert(seq!["kanidm"@] + seq!["person"@, "get"@, persons[index].name@] + seq![
            "--name"@,
            account,
        ] =~= seq!["kanidm"@, "person"@, "get"@, persons[index].name@, "--name"@, account]);
    }
}

/// There is a session where the command that asks for it succeeds; where it
/// fails, the error names the container and the account to log in with.
pub proof fn session_is_there_where_its_command_succeeds(
    container: Seq<char>,
    account: Seq<char>,
    output: OutputView,
    error: exec::ExecErrorView,
)
    ensures
        session_verdict(container, account, Ok(output)) is Ok <==> output.code == 0,
        output.code != 0 ==> session_verdict(container, account, Ok(output)) == Err::<
            (),
            KanidmErrorView,
        >(KanidmErrorView::NoKanidmSession { container, account }),
        session_verdict(container, account, Err(error)) == Err::<(), KanidmErrorView>(
            KanidmErrorView::Exec(error),
        ),
{
}

} // verus!
