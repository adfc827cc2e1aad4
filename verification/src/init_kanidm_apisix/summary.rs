//! What the provisioning tells its operator in the end.

use crate::configuration::{Service, ServiceProtectionMode, ServicesConfiguration};
use crate::configuration;
use crate::kanidm::provision::{ProvisionedPerson, ProvisionedView};
use crate::kanidm::provision;
use crate::text::{cat3, cat4, cat5, join_texts};
use crate::text;
use vstd::prelude::*;

verus! {

/// What the operator needs to set up an application that speaks OIDC itself.
pub struct NativeSummary {
    pub display_name: String,
    pub client_id: String,
    pub discovery_url: String,
    pub secret_key: String,
    pub group: String,
    pub redirect_url_missing: bool,
}

/// The contents of a `NativeSummary`.
#[verifier::ext_equal]
pub struct NativeView {
    pub display_name: Seq<char>,
    pub client_id: Seq<char>,
    pub discovery_url: Seq<char>,
    pub secret_key: Seq<char>,
    pub group: Seq<char>,
    pub redirect_url_missing: bool,
}

impl View for NativeSummary {
    type V = NativeView;

    open spec fn view(&self) -> NativeView {
        NativeView {
            display_name: self.display_name@,
            client_id: self.client_id@,
            discovery_url: self.discovery_url@,
            secret_key: self.secret_key@,
            group: self.group@,
            redirect_url_missing: self.redirect_url_missing,
        }
    }
}

/// The contents of a list of summaries.
pub open spec fn native_views(natives: Seq<NativeSummary>) -> Seq<NativeView> {
    Seq::new(natives.len(), |i: int| natives[i]@)
}

/// The summary of one service.
pub open spec fn native_of(service: Service, kanidm_origin: Seq<char>) -> NativeView {
    NativeView {
        display_name: service.display_name@,
        client_id: service.client_id@,
        discovery_url: service.discovery(kanidm_origin),
        secret_key: configuration::secret_name(service.client_id@),
        group: service.group@,
        redirect_url_missing: service.native_redirect_url is None,
    }
}

/// The summaries of the services that speak OIDC themselves, in order.
pub open spec fn natives_of(services: Seq<Service>, kanidm_origin: Seq<char>) -> Seq<NativeView>
    decreases services.len(),
{
    if services.len() == 0 {
        Seq::empty()
    } else {
        let before = natives_of(services.drop_last(), kanidm_origin);
        if services.last().mode == ServiceProtectionMode::Native {
            before.push(native_of(services.last(), kanidm_origin))
        } else {
            before
        }
    }
}

/// Sums up the services that speak OIDC themselves.
pub fn native_summary(configuration: &ServicesConfiguration) -> (natives: Vec<NativeSummary>)
    ensures
        native_views(natives@) == natives_of(
            configuration.services@,
            configuration.kanidm_origin@,
        ),
{
    let services = &configuration.services;
    let ghost origin = configuration.kanidm_origin@;
    let mut natives: Vec<NativeSummary> = Vec::new();
    let mut i: usize = 0;
    assert(native_views(natives@) =~= natives_of(services@.take(0), origin));
    while i < services.len()
        invariant
            i <= services@.len(),
            origin == configuration.kanidm_origin@,
            native_views(natives@) == natives_of(services@.take(i as int), origin),
        decreases services@.len() - i,
    {
        assert(services@.take(i + 1).drop_last() =~= services@.take(i as int));
        assert(services@.take(i + 1).last() == services@[i as int]);
        let service = &services[i];
        let ghost before = native_views(natives@);
        if matches!(service.mode, ServiceProtectionMode::Native) {
            let native = NativeSummary {
                display_name: service.display_name.clone(),
                client_id: service.client_id.clone(),
                discovery_url: service.discovery_url(configuration),
                secret_key: service.secret_key(),
                group: service.group.clone(),
                redirect_url_missing: service.native_redirect_url.is_none(),
            };
            let ghost seen = native@;
            natives.push(native);
            assert(native_views(natives@) =~= before.push(seen));
        }
        i += 1;
    }
    assert(services@.take(i as int) =~= services@);
    natives
}

/// What is printed of one summary.
pub open spec fn native_block(native: NativeView, secrets_dir: Seq<char>) -> Seq<char> {
    let head = "\n  "@ + native.display_name + " ("@ + native.client_id + ")\n"@;
    let body = head + "    discovery:     "@ + native.discovery_url + "\n    client_id:     "@
        + native.client_id;
    let keys = body + "\n    client_secret: "@ + secrets_dir + "/"@ + native.secret_key;
    let whole = keys + "\n    access group:  "@ + native.group + "\n"@;
    if native.redirect_url_missing {
        whole + "    WARNING: native_redirect_url is unset — logins will fail\n"@
    } else {
        whole
    }
}

/// What is printed of a list of summaries.
pub open spec fn native_blocks(natives: Seq<NativeView>, secrets_dir: Seq<char>) -> Seq<char>
    decreases natives.len(),
{
    if natives.len() == 0 {
        Seq::empty()
    } else {
        native_blocks(natives.drop_last(), secrets_dir) + native_block(
            natives.last(),
            secrets_dir,
        )
    }
}

/// What is printed of the applications that speak OIDC themselves. Without any,
/// nothing is.
pub open spec fn native_text(natives: Seq<NativeView>, secrets_dir: Seq<char>) -> Seq<char> {
    if natives.len() == 0 {
        Seq::empty()
    } else {
        "\nnative OIDC apps — configure these in the app itself\n"@ + native_blocks(
            natives,
            secrets_dir,
        ) + "\n"@
    }
}

/// Writes what is printed of the applications that speak OIDC themselves.
pub fn print_native_summary(natives: &Vec<NativeSummary>, secrets_dir: &str) -> (text: String)
    ensures
        text@ == native_text(native_views(natives@), secrets_dir@),
{
    let ghost all = native_views(natives@);
    let mut blocks = String::new();
    let mut i: usize = 0;
    while i < natives.len()
        invariant
            i <= natives@.len(),
            all == native_views(natives@),
            blocks@ == native_blocks(all.take(i as int), secrets_dir@),
        decreases natives@.len() - i,
    {
        assert(all.take(i + 1).drop_last() =~= all.take(i as int));
        assert(all.take(i + 1).last() == natives@[i as int]@);
        let native = &natives[i];
        let head = cat5("\n  ", &native.display_name, " (", &native.client_id, ")\n");
        let body = cat5(
            &head,
            "    discovery:     ",
            &native.discovery_url,
            "\n    client_id:     ",
            &native.client_id,
        );
        let keys = cat5(
            &body,
            "\n    client_secret: ",
            secrets_dir,
            "/",
            &native.secret_key,
        );
        let mut whole = cat4(&keys, "\n    access group:  ", &native.group, "\n");
        if native.redirect_url_missing {
            whole.append("    WARNING: native_redirect_url is unset — logins will fail\n");
        }
        blocks.append(&whole);
        i += 1;
    }
    assert(all.take(i as int) =~= all);
    if natives.len() == 0 {
        String::new()
    } else {
        cat3("\nnative OIDC apps — configure these in the app itself\n", &blocks, "\n")
    }
}

/// What is printed of a new person.
pub open spec fn person_block(person: ProvisionedView) -> Seq<char> {
    let head = "\n  "@ + person.display_name + " ("@ + person.name + ")\n"@;
    head + "    groups:    "@ + text::join(person.groups, ", "@) + "\n    reset url: "@ + (match
        person.reset_url {
        Some(url) => url,
        None => Seq::empty(),
    } + "\n    expires:   1 hour\n"@)
}

/// What is printed of the new ones among the persons.
pub open spec fn person_blocks(persons: Seq<ProvisionedView>) -> Seq<char>
    decreases persons.len(),
{
    if persons.len() == 0 {
        Seq::empty()
    } else if persons.last().reset_url is Some {
        person_blocks(persons.drop_last()) + person_block(persons.last())
    } else {
        person_blocks(persons.drop_last())
    }
}

/// Whether one of the persons is new.
pub open spec fn any_new(persons: Seq<ProvisionedView>) -> bool {
    exists|i: int| 0 <= i < persons.len() && (#[trigger] persons[i]).reset_url is Some
}

/// What is printed of the persons. Without a new one, nothing is.
pub open spec fn person_text(persons: Seq<ProvisionedView>) -> Seq<char> {
    if any_new(persons) {
        "\nnew persons — send each user their enrolment link\n"@ + person_blocks(persons) + "\n"@
    } else {
        Seq::empty()
    }
}

/// Writes what is printed of the persons. A run that created nobody prints
/// nothing.
pub fn print_person_summary(persons: &Vec<ProvisionedPerson>) -> (text: String)
    ensures
        text@ == person_text(provision::provisioned_views(persons@)),
{
    let ghost all = provision::provisioned_views(persons@);
    let mut blocks = String::new();
    let mut found = false;
    let mut i: usize = 0;
    while i < persons.len()
        invariant
            i <= persons@.len(),
            all == provision::provisioned_views(persons@),
            blocks@ == person_blocks(all.take(i as int)),
            found == (exists|j: int| 0 <= j < i && (#[trigger] all[j]).reset_url is Some),
        decreases persons@.len() - i,
    {
        assert(all.take(i + 1).drop_last() =~= all.take(i as int));
        assert(all.take(i + 1).last() == persons@[i as int]@);
        assert(all[i as int] == persons@[i as int]@);
        let person = &persons[i];
        if let Some(url) = &person.reset_url {
            found = true;
            let head = cat5("\n  ", &person.display_name, " (", &person.name, ")\n");
            let tail = crate::text::cat2(url, "\n    expires:   1 hour\n");
            let block = cat5(
                &head,
                "    groups:    ",
                &join_texts(&person.groups, ", "),
                "\n    reset url: ",
                &tail,
            );
            assert(block@ == person_block(all[i as int]));
            blocks.append(&block);
        }
        i += 1;
    }
    assert(all.take(i as int) =~= all);
    if found {
        cat3("\nnew persons — send each user their enrolment link\n", &blocks, "\n")
    } else {
        String::new()
    }
}

/// A run that created nobody prints nothing of the persons.
pub proof fn converged_run_prints_no_persons(persons: Seq<ProvisionedView>)
    requires
        forall|i: int| 0 <= i < persons.len() ==> (#[trigger] persons[i]).reset_url is None,
    ensures
        person_text(persons) == Seq::<char>::empty(),
{
}

/// Every native service is summed up, in order, and no other: with what has to be
/// told to the app, and whether it lacks a redirect address.
pub proof fn every_native_service_is_summed_up(
    services: Seq<Service>,
    service: Service,
    kanidm_origin: Seq<char>,
)
    ensures
        natives_of(Seq::empty(), kanidm_origin).len() == 0,
        service.mode != ServiceProtectionMode::Native ==> natives_of(
            services.push(service),
            kanidm_origin,
        ) == natives_of(services, kanidm_origin),
        service.mode == ServiceProtectionMode::Native ==> natives_of(
            services.push(service),
            kanidm_origin,
        ) == natives_of(services, kanidm_origin).push(
            NativeView {
                display_name: service.display_name@,
                client_id: service.client_id@,
                discovery_url: kanidm_origin + "/oauth2/openid/"@ + service.client_id@
                    + "/.well-known/openid-configuration"@,
                secret_key: configuration::secret_name(service.client_id@),
                group: service.group@,
                redirect_url_missing: service.native_redirect_url is None,
            },
        ),
{
    assert(services.push(service).drop_last() =~= services);
}

/// The summary of the native services is made of one block for each, in order,
/// under one heading; without such services it is empty.
pub proof fn native_summary_tells_every_service(
    natives: Seq<NativeView>,
    native: NativeView,
    secrets_dir: Seq<char>,
)
    ensures
        native_text(Seq::empty(), secrets_dir).len() == 0,
        native_blocks(Seq::empty(), secrets_dir).len() == 0,
        natives.len() > 0 ==> native_text(natives, secrets_dir)
            == "\nnative OIDC apps — configure these in the app itself\n"@ + native_blocks(
            natives,
            secrets_dir,
        ) + "\n"@,
        native_blocks(natives.push(native), secrets_dir) == native_blocks(natives, secrets_dir)
            + "\n  "@ + native.display_name + " ("@ + native.client_id + ")\n"@
            + "    discovery:     "@ + native.discovery_url + "\n    client_id:     "@
            + native.client_id + "\n    client_secret: "@ + secrets_dir + "/"@
            + native.secret_key + "\n    access group:  "@ + native.group + "\n"@ + (
        if native.redirect_url_missing {
            "    WARNING: native_redirect_url is unset — logins will fail\n"@
        } else {
            Seq::empty()
        }),
{
    assert(natives.push(native).drop_last() =~= natives);
    let before = native_blocks(natives, secrets_dir);
    let head = before + "\n  "@ + native.display_name + " ("@ + native.client_id + ")\n"@;
    assert(before + ("\n  "@ + native.display_name + " ("@ + native.client_id + ")\n"@) =~= head);
    assert(native_blocks(natives.push(native), secrets_dir) =~= head + "    discovery:     "@
        + native.discovery_url + "\n    client_id:     "@ + native.client_id
        + "\n    client_secret: "@ + secrets_dir + "/"@ + native.secret_key
        + "\n    access group:  "@ + native.group + "\n"@ + (if native.redirect_url_missing {
        "    WARNING: native_redirect_url is unset — logins will fail\n"@
    } else {
        Seq::empty()
    }));
}

/// The summary of the persons is made of one block for each new one, in order,
/// with the link to send; a person that was there before is left out.
pub proof fn person_summary_tells_every_new_person(
    persons: Seq<ProvisionedView>,
    person: ProvisionedView,
)
    ensures
        person_blocks(Seq::empty()).len() == 0,
        person.reset_url is None ==> person_blocks(persons.push(person)) == person_blocks(persons),
        person.reset_url matches Some(url) ==> person_blocks(persons.push(person))
            == person_blocks(persons) + "\n  "@ + person.display_name + " ("@ + person.name + ")\n"@
            + "    groups:    "@ + text::join(person.groups, ", "@) + "\n    reset url: "@ + url
            + "\n    expires:   1 hour\n"@,
        person.reset_url is Some ==> person_text(persons.push(person))
            == "\nnew persons — send each user their enrolment link\n"@ + person_blocks(
            persons.push(person),
        ) + "\n"@,
        person.reset_url is None && person_text(persons).len() == 0 ==> person_text(
            persons.push(person),
        ).len() == 0,
{
    let all = persons.push(person);
    assert(all.drop_last() =~= persons);
    assert(all[persons.len() as int] == person);
    if let Some(url) = person.reset_url {
        let before = person_blocks(persons);
        let head = before + "\n  "@ + person.display_name + " ("@ + person.name + ")\n"@;
        assert(before + ("\n  "@ + person.display_name + " ("@ + person.name + ")\n"@) =~= head);
        assert(person_blocks(all) =~= head + "    groups:    "@ + text::join(person.groups, ", "@)
            + "\n    reset url: "@ + url + "\n    expires:   1 hour\n"@);
    } else if person_text(persons).len() == 0 {
        reveal_strlit("\nnew persons — send each user their enrolment link\n");
        if any_new(all) {
            let i = choose|i: int| 0 <= i < all.len() && (#[trigger] all[i]).reset_url is Some;
            assert(persons[i].reset_url is Some);
            assert(any_new(persons));
        }
    }
}

} // verus!
