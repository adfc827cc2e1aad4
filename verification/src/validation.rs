//! The rules that a configuration of services has to keep.

use crate::configuration::{Person, Service, ServiceProtectionMode, ServicesConfiguration};
use crate::numbers::format_u64;
use crate::numbers;
use crate::text::{cat2, cat3, cat4, contains_text, has_char, has_prefix, has_suffix};
use crate::text;
use vstd::prelude::*;

verus! {

/// What is wrong with a part of a configuration: the path of the part and what
/// it should be.
pub type Problem = (Seq<char>, Seq<char>);

/// The first text that occurs a second time.
pub open spec fn first_duplicate(names: Seq<Seq<char>>) -> Option<Seq<char>>
    decreases names.len(),
{
    if names.len() == 0 {
        None
    } else {
        match first_duplicate(names.drop_last()) {
            Some(name) => Some(name),
            None => if names.drop_last().contains(names.last()) {
                Some(names.last())
            } else {
                None
            },
        }
    }
}

/// Why an origin is refused.
pub open spec fn slash_complaint(value: Seq<char>) -> Option<Seq<char>> {
    if text::ends_with(value, "/"@) {
        Some("must not have a trailing slash"@)
    } else {
        None
    }
}

/// Why a list of client identifiers is refused.
pub open spec fn client_complaint(ids: Seq<Seq<char>>) -> Option<Seq<char>> {
    match first_duplicate(ids) {
        Some(id) => Some("duplicate client_id '"@ + id + "'"@),
        None => None,
    }
}

/// Why a list of person names is refused.
pub open spec fn person_complaint(names: Seq<Seq<char>>) -> Option<Seq<char>> {
    match first_duplicate(names) {
        Some(name) => Some("duplicate name '"@ + name + "'"@),
        None => None,
    }
}

/// The first path that does not begin with a slash.
pub open spec fn first_relative(uris: Seq<Seq<char>>) -> Option<Seq<char>>
    decreases uris.len(),
{
    if uris.len() == 0 {
        None
    } else {
        match first_relative(uris.drop_last()) {
            Some(uri) => Some(uri),
            None => if text::starts_with(uris.last(), "/"@) {
                None
            } else {
                Some(uris.last())
            },
        }
    }
}

/// Why a list of paths is refused.
pub open spec fn path_complaint(uris: Seq<Seq<char>>) -> Option<Seq<char>> {
    if uris.len() == 0 {
        Some("must list at least one path"@)
    } else {
        match first_relative(uris) {
            Some(uri) => Some("path '"@ + uri + "' must start with '/'"@),
            None => None,
        }
    }
}

/// Why an upstream is refused.
pub open spec fn upstream_complaint(
    mode: ServiceProtectionMode,
    upstream: Option<Seq<char>>,
) -> Option<Seq<char>> {
    match upstream {
        None => if mode.routed() {
            Some("mode "@ + mode.name() + " needs an upstream"@)
        } else {
            None
        },
        Some(address) => if address.contains(':') {
            None
        } else {
            Some("upstream '"@ + address + "' must be host:port"@)
        },
    }
}

/// Why an empty text is refused.
pub open spec fn length_complaint(text: Seq<char>) -> Option<Seq<char>> {
    if text.len() == 0 {
        Some("length is lower than 1"@)
    } else {
        None
    }
}

/// A complaint about the part at `path`, as a list.
pub open spec fn complaint_at(path: Seq<char>, complaint: Option<Seq<char>>) -> Seq<Problem> {
    match complaint {
        Some(message) => seq![(path, message)],
        None => Seq::empty(),
    }
}

/// The path of an item of a list.
pub open spec fn item_path(list: Seq<char>, index: int) -> Seq<char> {
    list + "["@ + numbers::digits(index as nat) + "]"@
}

/// What is wrong with a service.
pub open spec fn service_problems(path: Seq<char>, service: Service) -> Seq<Problem> {
    complaint_at(path + ".client_id"@, length_complaint(service.client_id@)) + complaint_at(
        path + ".upstream"@,
        upstream_complaint(service.mode, text::opt_text(service.upstream)),
    ) + complaint_at(path + ".uris"@, path_complaint(text::texts(service.uris@)))
}

/// What is wrong with a list of services.
pub open spec fn services_problems(services: Seq<Service>) -> Seq<Problem>
    decreases services.len(),
{
    if services.len() == 0 {
        Seq::empty()
    } else {
        services_problems(services.drop_last()) + service_problems(
            item_path("services"@, services.len() - 1),
            services.last(),
        )
    }
}

/// What is wrong with the groups of a person.
pub open spec fn groups_problems(path: Seq<char>, groups: Seq<Seq<char>>) -> Seq<Problem>
    decreases groups.len(),
{
    if groups.len() == 0 {
        Seq::empty()
    } else {
        groups_problems(path, groups.drop_last()) + complaint_at(
            item_path(path, groups.len() - 1),
            length_complaint(groups.last()),
        )
    }
}

/// What is wrong with a person.
pub open spec fn person_problems(path: Seq<char>, person: Person) -> Seq<Problem> {
    groups_problems(path + ".groups"@, text::texts(person.groups@)) + complaint_at(
        path + ".name"@,
        length_complaint(person.name@),
    )
}

/// What is wrong with a list of persons.
pub open spec fn persons_problems(persons: Seq<Person>) -> Seq<Problem>
    decreases persons.len(),
{
    if persons.len() == 0 {
        Seq::empty()
    } else {
        persons_problems(persons.drop_last()) + person_problems(
            item_path("persons"@, persons.len() - 1),
            persons.last(),
        )
    }
}

/// The client identifiers of a list of services.
pub open spec fn client_ids(services: Seq<Service>) -> Seq<Seq<char>> {
    Seq::new(services.len(), |i: int| services[i].client_id@)
}

/// The names of a list of persons.
pub open spec fn person_names(persons: Seq<Person>) -> Seq<Seq<char>> {
    Seq::new(persons.len(), |i: int| persons[i].name@)
}

/// Everything that is wrong with a configuration. Its parts come in the order of
/// their names, and the items of a list before the list as a whole.
pub open spec fn problems(configuration: ServicesConfiguration) -> Seq<Problem> {
    complaint_at("domain"@, length_complaint(configuration.domain@)) + complaint_at(
        "kanidm_origin"@,
        slash_complaint(configuration.kanidm_origin@),
    ) + persons_problems(configuration.persons@) + complaint_at(
        "persons"@,
        person_complaint(person_names(configuration.persons@)),
    ) + services_problems(configuration.services@) + complaint_at(
        "services"@,
        client_complaint(client_ids(configuration.services@)),
    )
}

/// The text of a rule's verdict.
pub open spec fn complaint_of(verdict: Result<(), String>) -> Option<Seq<char>> {
    match verdict {
        Ok(_) => None,
        Err(message) => Some(message@),
    }
}

/// An origin has no slash at its end.
pub fn no_trailing_slash(value: &str) -> (verdict: Result<(), String>)
    ensures
        complaint_of(verdict) == slash_complaint(value@),
{
    if has_suffix(value, "/") {
        Err("must not have a trailing slash".to_owned())
    } else {
        Ok(())
    }
}

/// The first text that occurs a second time.
fn find_duplicate(names: &Vec<String>) -> (found: Option<String>)
    ensures
        text::opt_text(found) == first_duplicate(text::texts(names@)),
{
    let ghost all = text::texts(names@);
    let mut seen: Vec<String> = Vec::new();
    let mut i: usize = 0;
    assert(text::texts(seen@) =~= all.take(0));
    while i < names.len()
        invariant
            i <= names@.len(),
            all == text::texts(names@),
            text::texts(seen@) == all.take(i as int),
            first_duplicate(all.take(i as int)) is None,
        decreases names@.len() - i,
    {
        assert(all.take(i + 1).drop_last() =~= all.take(i as int));
        assert(all.take(i + 1).last() == names@[i as int]@);
        if contains_text(&seen, &names[i]) {
            proof {
                lemma_duplicate_prefix(all, i + 1);
            }
            return Some(names[i].clone());
        }
        seen.push(names[i].clone());
        i += 1;
        assert(text::texts(seen@) =~= all.take(i as int));
    }
    assert(all.take(i as int) =~= all);
    None
}

proof fn lemma_duplicate_prefix(names: Seq<Seq<char>>, upto: int)
    requires
        0 <= upto <= names.len(),
        first_duplicate(names.take(upto)) is Some,
    ensures
        first_duplicate(names) == first_duplicate(names.take(upto)),
    decreases names.len() - upto,
{
    if upto == names.len() {
        assert(names.take(upto) =~= names);
    } else {
        assert(names.take(upto + 1).drop_last() =~= names.take(upto));
        lemma_duplicate_prefix(names, upto + 1);
    }
}

/// No client identifier is given twice.
pub fn unique_client_ids(services: &Vec<Service>) -> (verdict: Result<(), String>)
    ensures
        complaint_of(verdict) == client_complaint(client_ids(services@)),
{
    let mut ids: Vec<String> = Vec::new();
    for i in 0..services.len()
        invariant
            ids@.len() == i,
            forall|j: int| 0 <= j < i ==> (#[trigger] ids@[j])@ == services@[j].client_id@,
    {
        ids.push(services[i].client_id.clone());
    }
    assert(text::texts(ids@) =~= client_ids(services@));
    match find_duplicate(&ids) {
        Some(id) => Err(cat3("duplicate client_id '", &id, "'")),
        None => Ok(()),
    }
}

/// No person's name is given twice.
pub fn unique_person_names(persons: &Vec<Person>) -> (verdict: Result<(), String>)
    ensures
        complaint_of(verdict) == person_complaint(person_names(persons@)),
{
    let mut names: Vec<String> = Vec::new();
    for i in 0..persons.len()
        invariant
            names@.len() == i,
            forall|j: int| 0 <= j < i ==> (#[trigger] names@[j])@ == persons@[j].name@,
    {
        names.push(persons[i].name.clone());
    }
    assert(text::texts(names@) =~= person_names(persons@));
    match find_duplicate(&names) {
        Some(name) => Err(cat3("duplicate name '", &name, "'")),
        None => Ok(()),
    }
}

proof fn lemma_relative_prefix(uris: Seq<Seq<char>>, upto: int)
    requires
        0 <= upto <= uris.len(),
        first_relative(uris.take(upto)) is Some,
    ensures
        first_relative(uris) == first_relative(uris.take(upto)),
    decreases uris.len() - upto,
{
    if upto == uris.len() {
        assert(uris.take(upto) =~= uris);
    } else {
        assert(uris.take(upto + 1).drop_last() =~= uris.take(upto));
        lemma_relative_prefix(uris, upto + 1);
    }
}

/// There is a path, and every path begins with a slash.
pub fn paths_absolute(uris: &Vec<String>) -> (verdict: Result<(), String>)
    ensures
        complaint_of(verdict) == path_complaint(text::texts(uris@)),
{
    if uris.len() == 0 {
        return Err("must list at least one path".to_owned());
    }
    let ghost all = text::texts(uris@);
    let mut i: usize = 0;
    while i < uris.len()
        invariant
            i <= uris@.len(),
            uris@.len() > 0,
            all == text::texts(uris@),
            first_relative(all.take(i as int)) is None,
        decreases uris@.len() - i,
    {
        assert(all.take(i + 1).drop_last() =~= all.take(i as int));
        assert(all.take(i + 1).last() == uris@[i as int]@);
        if !has_prefix(&uris[i], "/") {
            proof {
                lemma_relative_prefix(all, i + 1);
            }
            return Err(cat3("path '", &uris[i], "' must start with '/'"));
        }
        i += 1;
    }
    assert(all.take(i as int) =~= all);
    Ok(())
}

/// A service with a route has an upstream, and an upstream has a port.
pub fn upstream_for(
    service_protection_mode: ServiceProtectionMode,
    upstream: &Option<String>,
) -> (verdict: Result<(), String>)
    ensures
        complaint_of(verdict) == upstream_complaint(service_protection_mode, text::opt_text(*upstream)),
{
    match upstream {
        None => if service_protection_mode.needs_apisix_route() {
            Err(cat3("mode ", &service_protection_mode.label(), " needs an upstream"))
        } else {
            Ok(())
        },
        Some(address) => if has_char(address, ':') {
            Ok(())
        } else {
            Err(cat3("upstream '", address, "' must be host:port"))
        },
    }
}

/// A text is not empty.
fn not_empty(text: &str) -> (verdict: Result<(), String>)
    ensures
        complaint_of(verdict) == length_complaint(text@),
{
    if text.is_empty() {
        Err("length is lower than 1".to_owned())
    } else {
        Ok(())
    }
}

/// Adds what a rule complains about.
fn note(found: &mut Vec<(String, String)>, path: String, verdict: Result<(), String>)
    ensures
        text::text_pairs(final(found)@) == text::text_pairs(old(found)@) + complaint_at(
            path@,
            complaint_of(verdict),
        ),
{
    let ghost before = text::text_pairs(found@);
    let ghost at = path@;
    match verdict {
        Ok(_) => {
            assert(before + Seq::<Problem>::empty() =~= before);
        },
        Err(message) => {
            let ghost said = message@;
            found.push((path, message));
            assert(text::text_pairs(found@) =~= before + seq![(at, said)]);
        },
    }
}

/// The path of an item of a list.
fn item_at(list: &str, index: usize) -> (path: String)
    ensures
        path@ == item_path(list@, index as int),
{
    cat4(list, "[", &format_u64(index as u64), "]")
}

/// Checks a configuration against all rules. What it finds stands in the order
/// of the names of the parts, with the items of a list before the list as a
/// whole; a configuration is valid where it finds nothing.
pub fn validate(configuration: &ServicesConfiguration) -> (found: Vec<(String, String)>)
    ensures
        text::text_pairs(found@) == problems(*configuration),
{
    let mut found: Vec<(String, String)> = Vec::new();
    assert(text::text_pairs(found@) =~= Seq::<Problem>::empty());
    note(&mut found, "domain".to_owned(), not_empty(&configuration.domain));
    assert(Seq::<Problem>::empty() + complaint_at(
        "domain"@,
        length_complaint(configuration.domain@),
    ) =~= complaint_at("domain"@, length_complaint(configuration.domain@)));
    note(&mut found, "kanidm_origin".to_owned(), no_trailing_slash(&configuration.kanidm_origin));
    let persons = &configuration.persons;
    let ghost head = text::text_pairs(found@);
    let mut k: usize = 0;
    assert(head + persons_problems(persons@.take(0)) =~= head);
    while k < persons.len()
        invariant
            k <= persons@.len(),
            text::text_pairs(found@) == head + persons_problems(persons@.take(k as int)),
        decreases persons@.len() - k,
    {
        assert(persons@.take(k + 1).drop_last() =~= persons@.take(k as int));
        let person = &persons[k];
        let path = item_at("persons", k);
        let ghost before = text::text_pairs(found@);
        let list = cat2(&path, ".groups");
        let ghost groups = text::texts(person.groups@);
        let mut g: usize = 0;
        assert(before + groups_problems(list@, groups.take(0)) =~= before);
        while g < person.groups.len()
            invariant
                g <= person.groups@.len(),
                groups == text::texts(person.groups@),
                text::text_pairs(found@) == before + groups_problems(list@, groups.take(g as int)),
            decreases person.groups@.len() - g,
        {
            assert(groups.take(g + 1).drop_last() =~= groups.take(g as int));
            note(&mut found, item_at(&list, g), not_empty(&person.groups[g]));
            g += 1;
            assert(text::text_pairs(found@) =~= before + groups_problems(list@, groups.take(g as int)));
        }
        assert(groups.take(g as int) =~= groups);
        note(&mut found, cat2(&path, ".name"), not_empty(&person.name));
        assert(text::text_pairs(found@) =~= before + person_problems(path@, *person));
        k += 1;
        assert(text::text_pairs(found@) =~= head + persons_problems(persons@.take(k as int)));
    }
    assert(persons@.take(k as int) =~= persons@);
    note(&mut found, "persons".to_owned(), unique_person_names(persons));
    let services = &configuration.services;
    let ghost middle = text::text_pairs(found@);
    let mut i: usize = 0;
    assert(middle + services_problems(services@.take(0)) =~= middle);
    while i < services.len()
        invariant
            i <= services@.len(),
            text::text_pairs(found@) == middle + services_problems(services@.take(i as int)),
        decreases services@.len() - i,
    {
        assert(services@.take(i + 1).drop_last() =~= services@.take(i as int));
        let service = &services[i];
        let path = item_at("services", i);
        let ghost before = text::text_pairs(found@);
        note(&mut found, cat2(&path, ".client_id"), not_empty(&service.client_id));
        note(
            &mut found,
            cat2(&path, ".upstream"),
            upstream_for(service.mode, &service.upstream),
        );
        note(&mut found, cat2(&path, ".uris"), paths_absolute(&service.uris));
        assert(text::text_pairs(found@) =~= before + service_problems(path@, *service));
        i += 1;
        assert(text::text_pairs(found@) =~= middle + services_problems(services@.take(i as int)));
    }
    assert(services@.take(i as int) =~= services@);
    note(&mut found, "services".to_owned(), unique_client_ids(services));
    found
}

/// A report, one problem on each line.
pub open spec fn report_of(found: Seq<Problem>) -> Seq<char>
    decreases found.len(),
{
    if found.len() == 0 {
        Seq::empty()
    } else {
        report_of(found.drop_last()) + (found.last().0 + ": "@ + found.last().1 + "\n"@)
    }
}

/// Writes what was found, one problem on each line.
pub fn report(found: &Vec<(String, String)>) -> (text: String)
    ensures
        text@ == report_of(text::text_pairs(found@)),
{
    let ghost all = text::text_pairs(found@);
    let mut text = String::new();
    let mut i: usize = 0;
    while i < found.len()
        invariant
            i <= found@.len(),
            all == text::text_pairs(found@),
            text@ == report_of(all.take(i as int)),
        decreases found@.len() - i,
    {
        assert(all.take(i + 1).drop_last() =~= all.take(i as int));
        assert(all.take(i + 1).last() == (found@[i as int].0@, found@[i as int].1@));
        text.append(&cat4(&found[i].0, ": ", &found[i].1, "\n"));
        i += 1;
    }
    assert(all.take(i as int) =~= all);
    text
}

// ---------------------------------------------------------------------------
// Laws of validation
// ---------------------------------------------------------------------------

/// A list without a first duplicate has no duplicates.
proof fn lemma_no_duplicate(names: Seq<Seq<char>>)
    ensures
        first_duplicate(names) is None <==> names.no_duplicates(),
    decreases names.len(),
{
    if names.len() > 0 {
        let init = names.drop_last();
        lemma_no_duplicate(init);
        if first_duplicate(names) is None {
            assert forall|i: int, j: int|
                0 <= i < names.len() && 0 <= j < names.len() && i != j implies names[i]
                != names[j] by {
                if i < init.len() && j < init.len() {
                    assert(init[i] != init[j]);
                } else if i < init.len() {
                    assert(init[i] == names[i]);
                } else {
                    assert(init[j] == names[j]);
                }
            }
        }
        if names.no_duplicates() {
            assert(init.no_duplicates()) by {
                assert forall|i: int, j: int|
                    0 <= i < init.len() && 0 <= j < init.len() && i != j implies init[i]
                    != init[j] by {
                    assert(names[i] != names[j]);
                }
            }
            if init.contains(names.last()) {
                let k = choose|k: int| 0 <= k < init.len() && init[k] == names.last();
                assert(names[k] != names[names.len() - 1]);
            }
        }
    }
}

/// Services without problems are fine one by one.
proof fn lemma_services_fine(services: Seq<Service>, k: int)
    requires
        services_problems(services).len() == 0,
        0 <= k < services.len(),
    ensures
        length_complaint(services[k].client_id@) is None,
        path_complaint(text::texts(services[k].uris@)) is None,
        upstream_complaint(services[k].mode, text::opt_text(services[k].upstream)) is None,
    decreases services.len(),
{
    let init = services.drop_last();
    assert(services_problems(services).len() == services_problems(init).len() + service_problems(
        item_path("services"@, services.len() - 1),
        services.last(),
    ).len());
    if k < services.len() - 1 {
        lemma_services_fine(init, k);
        assert(init[k] == services[k]);
    }
}

proof fn lemma_absolute(uris: Seq<Seq<char>>, k: int)
    requires
        first_relative(uris) is None,
        0 <= k < uris.len(),
    ensures
        text::starts_with(uris[k], "/"@),
    decreases uris.len(),
{
    if k < uris.len() - 1 {
        lemma_absolute(uris.drop_last(), k);
    }
}

proof fn lemma_groups_fine(path: Seq<char>, groups: Seq<Seq<char>>, k: int)
    requires
        groups_problems(path, groups).len() == 0,
        0 <= k < groups.len(),
    ensures
        groups[k].len() > 0,
    decreases groups.len(),
{
    let init = groups.drop_last();
    assert(groups_problems(path, groups).len() == groups_problems(path, init).len() + complaint_at(
        item_path(path, groups.len() - 1),
        length_complaint(groups.last()),
    ).len());
    if k < groups.len() - 1 {
        lemma_groups_fine(path, init, k);
    }
}

/// Persons without problems are fine one by one.
proof fn lemma_persons_fine(persons: Seq<Person>, k: int)
    requires
        persons_problems(persons).len() == 0,
        0 <= k < persons.len(),
    ensures
        persons[k].name@.len() > 0,
        forall|i: int| 0 <= i < persons[k].groups@.len() ==> (#[trigger] persons[k].groups@[i])@.len() > 0,
    decreases persons.len(),
{
    let init = persons.drop_last();
    let path = item_path("persons"@, persons.len() - 1);
    assert(persons_problems(persons).len() == persons_problems(init).len() + person_problems(
        path,
        persons.last(),
    ).len());
    if k < persons.len() - 1 {
        lemma_persons_fine(init, k);
        assert(init[k] == persons[k]);
    } else {
        let groups = text::texts(persons[k].groups@);
        assert forall|i: int| 0 <= i < persons[k].groups@.len() implies (
        #[trigger] persons[k].groups@[i])@.len() > 0 by {
            lemma_groups_fine(path + ".groups"@, groups, i);
            assert(groups[i] == persons[k].groups@[i]@);
        }
    }
}

/// A valid configuration names its domain, and every client and every person
/// once. Each of its services claims at least one path, all of them absolute,
/// and one that gets a route has an upstream with a port. No name of a client,
/// a person or the group of a person is empty.
pub proof fn valid_configuration_is_usable(configuration: ServicesConfiguration)
    requires
        problems(configuration).len() == 0,
    ensures
        configuration.domain@.len() > 0,
        !text::ends_with(configuration.kanidm_origin@, "/"@),
        client_ids(configuration.services@).no_duplicates(),
        person_names(configuration.persons@).no_duplicates(),
        forall|k: int|
            0 <= k < configuration.services@.len() ==> {
                let service = #[trigger] configuration.services@[k];
                &&& service.client_id@.len() > 0
                &&& service.uris@.len() > 0
                &&& forall|i: int|
                    0 <= i < service.uris@.len() ==> text::starts_with(
                        (#[trigger] service.uris@[i])@,
                        "/"@,
                    )
                &&& service.mode.routed() ==> service.upstream is Some
                &&& service.upstream matches Some(address) ==> address@.contains(':')
            },
        forall|k: int|
            0 <= k < configuration.persons@.len() ==> {
                let person = #[trigger] configuration.persons@[k];
                &&& person.name@.len() > 0
                &&& forall|i: int|
                    0 <= i < person.groups@.len() ==> (#[trigger] person.groups@[i])@.len() > 0
            },
{
    lemma_no_duplicate(client_ids(configuration.services@));
    lemma_no_duplicate(person_names(configuration.persons@));
    assert forall|k: int| 0 <= k < configuration.services@.len() implies {
        let service = #[trigger] configuration.services@[k];
        &&& service.client_id@.len() > 0
        &&& service.uris@.len() > 0
        &&& forall|i: int|
            0 <= i < service.uris@.len() ==> text::starts_with(
                (#[trigger] service.uris@[i])@,
                "/"@,
            )
        &&& service.mode.routed() ==> service.upstream is Some
        &&& service.upstream matches Some(address) ==> address@.contains(':')
    } by {
        lemma_services_fine(configuration.services@, k);
        let service = configuration.services@[k];
        let uris = text::texts(service.uris@);
        assert forall|i: int| 0 <= i < service.uris@.len() implies text::starts_with(
            (#[trigger] service.uris@[i])@,
            "/"@,
        ) by {
            lemma_absolute(uris, i);
            assert(uris[i] == service.uris@[i]@);
        }
    }
    assert forall|k: int| 0 <= k < configuration.persons@.len() implies {
        let person = #[trigger] configuration.persons@[k];
        &&& person.name@.len() > 0
        &&& forall|i: int|
            0 <= i < person.groups@.len() ==> (#[trigger] person.groups@[i])@.len() > 0
    } by {
        lemma_persons_fine(configuration.persons@, k);
    }
}

/// The name that is complained of is the first one that stood in the list before;
/// without a complaint no name stands there twice.
pub proof fn first_repeated_name_is_found(names: Seq<Seq<char>>)
    ensures
        first_duplicate(names) is None <==> names.no_duplicates(),
        first_duplicate(names) matches Some(name) ==> exists|j: int|
            0 <= j < names.len() && #[trigger] names[j] == name && names.take(j).contains(name)
                && names.take(j).no_duplicates(),
    decreases names.len(),
{
    if names.len() > 0 {
        let init = names.drop_last();
        let last = names.len() - 1;
        first_repeated_name_is_found(init);
        assert(names.take(last) =~= init);
        match first_duplicate(init) {
            Some(name) => {
                let j = choose|j: int|
                    0 <= j < init.len() && #[trigger] init[j] == name && init.take(j).contains(name)
                        && init.take(j).no_duplicates();
                assert(init.take(j) =~= names.take(j));
                assert(names[j] == name);
                let i = choose|i: int| 0 <= i < init.take(j).len() && init.take(j)[i] == name;
                assert(names[i] == names[j]);
            },
            None => {
                if init.contains(names.last()) {
                    let i = choose|i: int| 0 <= i < init.len() && init[i] == names.last();
                    assert(names[i] == names[last]);
                } else {
                    assert forall|i: int, j: int|
                        0 <= i < names.len() && 0 <= j < names.len() && i != j implies names[i]
                        != names[j] by {
                        if i < last && j < last {
                            assert(init[i] != init[j]);
                        } else if i < last {
                            assert(init.contains(init[i]));
                        } else {
                            assert(init.contains(init[j]));
                        }
                    }
                }
            },
        }
    }
}

/// The path that is complained of is the first one that does not begin with a
/// slash.
pub proof fn first_relative_path_is_found(uris: Seq<Seq<char>>)
    ensures
        first_relative(uris) is None <==> forall|i: int|
            0 <= i < uris.len() ==> (#[trigger] uris[i]).len() > 0 && uris[i][0] == '/',
        first_relative(uris) matches Some(uri) ==> exists|k: int|
            0 <= k < uris.len() && #[trigger] uris[k] == uri && !(uri.len() > 0 && uri[0] == '/')
                && forall|i: int|
                0 <= i < k ==> (#[trigger] uris[i]).len() > 0 && uris[i][0] == '/',
    decreases uris.len(),
{
    reveal_strlit("/");
    assert forall|i: int| 0 <= i < uris.len() implies (text::starts_with(#[trigger] uris[i], "/"@)
        <==> uris[i].len() > 0 && uris[i][0] == '/') by {
        if uris[i].len() > 0 {
            assert(uris[i].take(1)[0] == uris[i][0]);
            if uris[i][0] == '/' {
                assert(uris[i].take(1) =~= "/"@);
            }
        }
    }
    if uris.len() > 0 {
        let init = uris.drop_last();
        let last = uris.len() - 1;
        first_relative_path_is_found(init);
        match first_relative(init) {
            Some(uri) => {
                let k = choose|k: int|
                    0 <= k < init.len() && #[trigger] init[k] == uri && !(uri.len() > 0 && uri[0]
                        == '/') && forall|i: int|
                        0 <= i < k ==> (#[trigger] init[i]).len() > 0 && init[i][0] == '/';
                assert(uris[k] == uri);
                assert forall|i: int| 0 <= i < k implies (#[trigger] uris[i]).len() > 0
                    && uris[i][0] == '/' by {
                    assert(init[i] == uris[i]);
                }
            },
            None => {
                assert forall|i: int| 0 <= i < last implies (#[trigger] uris[i]).len() > 0
                    && uris[i][0] == '/' by {
                    assert(init[i] == uris[i]);
                }
                assert(uris[last] == uris.last());
            },
        }
    }
}

/// Every complaint says what is wrong, and is made only where that is so.
pub proof fn complaints_say_what_is_wrong(
    value: Seq<char>,
    uris: Seq<Seq<char>>,
    mode: ServiceProtectionMode,
)
    ensures
        slash_complaint(value) == (if value.len() > 0 && value.last() == '/' {
            Some("must not have a trailing slash"@)
        } else {
            None
        }),
        length_complaint(value) == (if value.len() == 0 {
            Some("length is lower than 1"@)
        } else {
            None
        }),
        client_complaint(uris) == (match first_duplicate(uris) {
            Some(id) => Some("duplicate client_id '"@ + id + "'"@),
            None => None,
        }),
        person_complaint(uris) == (match first_duplicate(uris) {
            Some(name) => Some("duplicate name '"@ + name + "'"@),
            None => None,
        }),
        path_complaint(Seq::empty()) == Some("must list at least one path"@),
        uris.len() > 0 ==> path_complaint(uris) == (match first_relative(uris) {
            Some(uri) => Some("path '"@ + uri + "' must start with '/'"@),
            None => None,
        }),
        upstream_complaint(mode, Some(value)) == (if value.contains(':') {
            None
        } else {
            Some("upstream '"@ + value + "' must be host:port"@)
        }),
        upstream_complaint(mode, None) == (match mode {
            ServiceProtectionMode::Gate => Some("mode "@ + "gate"@ + " needs an upstream"@),
            ServiceProtectionMode::Api => Some("mode "@ + "api"@ + " needs an upstream"@),
            ServiceProtectionMode::Proxy => Some("mode "@ + "proxy"@ + " needs an upstream"@),
            _ => None,
        }),
{
    reveal_strlit("/");
    if value.len() > 0 {
        assert(value.skip(value.len() - 1)[0] == value.last());
        if value.last() == '/' {
            assert(value.skip(value.len() - 1) =~= "/"@);
        }
    }
}

/// The problems of the services are told one service after the other: of each its
/// identifier, its upstream and its paths, under the place where it stands.
pub proof fn services_are_looked_at_one_by_one(services: Seq<Service>, service: Service)
    ensures
        services_problems(Seq::empty()).len() == 0,
        ({
            let place = "services["@ + numbers::digits(services.len()) + "]"@;
            services_problems(services.push(service)) == services_problems(services) + (
            match length_complaint(service.client_id@) {
                Some(message) => seq![(place + ".client_id"@, message)],
                None => Seq::empty(),
            }) + (match upstream_complaint(service.mode, text::opt_text(service.upstream)) {
                Some(message) => seq![(place + ".upstream"@, message)],
                None => Seq::empty(),
            }) + (match path_complaint(text::texts(service.uris@)) {
                Some(message) => seq![(place + ".uris"@, message)],
                None => Seq::empty(),
            })
        }),
{
    let place = "services["@ + numbers::digits(services.len()) + "]"@;
    reveal_strlit("services[");
    reveal_strlit("services");
    reveal_strlit("[");
    assert("services"@ + "["@ =~= "services["@);
    assert(item_path("services"@, services.len() as int) =~= place);
    assert(services.push(service).drop_last() =~= services);
    assert(services_problems(services.push(service)) =~= services_problems(services) + (
    match length_complaint(service.client_id@) {
        Some(message) => seq![(place + ".client_id"@, message)],
        None => Seq::empty(),
    }) + (match upstream_complaint(service.mode, text::opt_text(service.upstream)) {
        Some(message) => seq![(place + ".upstream"@, message)],
        None => Seq::empty(),
    }) + (match path_complaint(text::texts(service.uris@)) {
        Some(message) => seq![(place + ".uris"@, message)],
        None => Seq::empty(),
    }));
}

/// The problems of the persons are told one person after the other: of each its
/// groups, one by one, and then its name, under the place where it stands.
pub proof fn persons_are_looked_at_one_by_one(persons: Seq<Person>, person: Person)
    ensures
        persons_problems(Seq::empty()).len() == 0,
        ({
            let place = "persons["@ + numbers::digits(persons.len()) + "]"@;
            persons_problems(persons.push(person)) == persons_problems(persons) + groups_problems(
                place + ".groups"@,
                text::texts(person.groups@),
            ) + (match length_complaint(person.name@) {
                Some(message) => seq![(place + ".name"@, message)],
                None => Seq::empty(),
            })
        }),
{
    let place = "persons["@ + numbers::digits(persons.len()) + "]"@;
    reveal_strlit("persons[");
    reveal_strlit("persons");
    reveal_strlit("[");
    assert("persons"@ + "["@ =~= "persons["@);
    assert(item_path("persons"@, persons.len() as int) =~= place);
    assert(persons.push(person).drop_last() =~= persons);
    assert(persons_problems(persons.push(person)) =~= persons_problems(persons) + groups_problems(
        place + ".groups"@,
        text::texts(person.groups@),
    ) + (match length_complaint(person.name@) {
        Some(message) => seq![(place + ".name"@, message)],
        None => Seq::empty(),
    }));
}

/// A group without a name is a problem of its own place in the list, and no other
/// group is.
pub proof fn groups_are_looked_at_one_by_one(
    path: Seq<char>,
    groups: Seq<Seq<char>>,
    group: Seq<char>,
)
    ensures
        groups_problems(path, Seq::empty()).len() == 0,
        group.len() > 0 ==> groups_problems(path, groups.push(group)) == groups_problems(
            path,
            groups,
        ),
        group.len() == 0 ==> groups_problems(path, groups.push(group)) == groups_problems(
            path,
            groups,
        ).push(
            (path + "["@ + numbers::digits(groups.len()) + "]"@, "length is lower than 1"@),
        ),
{
    assert(groups.push(group).drop_last() =~= groups);
    if group.len() > 0 {
        assert(groups_problems(path, groups.push(group)) =~= groups_problems(path, groups));
    } else {
        assert(groups_problems(path, groups.push(group)) =~= groups_problems(path, groups).push(
            (path + "["@ + numbers::digits(groups.len()) + "]"@, "length is lower than 1"@),
        ));
    }
}

/// The configuration is looked at from the domain on: the domain and the origin,
/// the persons and whether two have one name, the services and whether two have
/// one identifier.
pub proof fn configuration_is_looked_at_in_order(configuration: ServicesConfiguration)
    ensures
        ({
            let domain: Seq<Problem> = if configuration.domain@.len() == 0 {
                seq![("domain"@, "length is lower than 1"@)]
            } else {
                Seq::empty()
            };
            let origin: Seq<Problem> = match slash_complaint(configuration.kanidm_origin@) {
                Some(message) => seq![("kanidm_origin"@, message)],
                None => Seq::empty(),
            };
            let names: Seq<Problem> = match person_complaint(
                configuration.persons@.map_values(|person: Person| person.name@),
            ) {
                Some(message) => seq![("persons"@, message)],
                None => Seq::empty(),
            };
            let ids: Seq<Problem> = match client_complaint(
                configuration.services@.map_values(|service: Service| service.client_id@),
            ) {
                Some(message) => seq![("services"@, message)],
                None => Seq::empty(),
            };
            problems(configuration) == domain + origin + persons_problems(configuration.persons@)
                + names + services_problems(configuration.services@) + ids
        }),
{
    assert(configuration.persons@.map_values(|person: Person| person.name@) =~= person_names(
        configuration.persons@,
    ));
    assert(configuration.services@.map_values(|service: Service| service.client_id@)
        =~= client_ids(configuration.services@));
}

/// A report tells the problems in order, each on a line: its place and what is
/// wrong there.
pub proof fn report_tells_every_problem(
    found: Seq<Problem>,
    place: Seq<char>,
    message: Seq<char>,
)
    ensures
        report_of(Seq::empty()).len() == 0,
        report_of(found.push((place, message))) == report_of(found) + place + ": "@ + message
            + "\n"@,
{
    assert(found.push((place, message)).drop_last() =~= found);
    assert(report_of(found.push((place, message))) =~= report_of(found) + place + ": "@ + message
        + "\n"@);
}

proof fn lemma_fine_services_have_no_problems(services: Seq<Service>)
    requires
        forall|k: int|
            0 <= k < services.len() ==> {
                let service = #[trigger] services[k];
                &&& length_complaint(service.client_id@) is None
                &&& upstream_complaint(service.mode, text::opt_text(service.upstream)) is None
                &&& path_complaint(text::texts(service.uris@)) is None
            },
    ensures
        services_problems(services).len() == 0,
    decreases services.len(),
{
    if services.len() > 0 {
        let init = services.drop_last();
        let last = services[services.len() - 1];
        assert forall|k: int| 0 <= k < init.len() implies {
            let service = #[trigger] init[k];
            &&& length_complaint(service.client_id@) is None
            &&& upstream_complaint(service.mode, text::opt_text(service.upstream)) is None
            &&& path_complaint(text::texts(service.uris@)) is None
        } by {
            assert(init[k] == services[k]);
        }
        lemma_fine_services_have_no_problems(init);
        services_are_looked_at_one_by_one(init, last);
        assert(init.push(last) =~= services);
    }
}

proof fn lemma_named_groups_have_no_problems(path: Seq<char>, groups: Seq<Seq<char>>)
    requires
        forall|i: int| 0 <= i < groups.len() ==> (#[trigger] groups[i]).len() > 0,
    ensures
        groups_problems(path, groups).len() == 0,
    decreases groups.len(),
{
    if groups.len() > 0 {
        let init = groups.drop_last();
        let last = groups[groups.len() - 1];
        assert forall|i: int| 0 <= i < init.len() implies (#[trigger] init[i]).len() > 0 by {
            assert(init[i] == groups[i]);
        }
        lemma_named_groups_have_no_problems(path, init);
        groups_are_looked_at_one_by_one(path, init, last);
        assert(init.push(last) =~= groups);
    }
}

proof fn lemma_fine_persons_have_no_problems(persons: Seq<Person>)
    requires
        forall|k: int|
            0 <= k < persons.len() ==> {
                let person = #[trigger] persons[k];
                &&& person.name@.len() > 0
                &&& forall|i: int|
                    0 <= i < person.groups@.len() ==> (#[trigger] person.groups@[i])@.len() > 0
            },
    ensures
        persons_problems(persons).len() == 0,
    decreases persons.len(),
{
    if persons.len() > 0 {
        let init = persons.drop_last();
        let last = persons[persons.len() - 1];
        assert forall|k: int| 0 <= k < init.len() implies {
            let person = #[trigger] init[k];
            &&& person.name@.len() > 0
            &&& forall|i: int|
                0 <= i < person.groups@.len() ==> (#[trigger] person.groups@[i])@.len() > 0
        } by {
            assert(init[k] == persons[k]);
        }
        lemma_fine_persons_have_no_problems(init);
        let place = "persons["@ + numbers::digits(init.len()) + "]"@;
        let groups = text::texts(last.groups@);
        assert forall|i: int| 0 <= i < groups.len() implies (#[trigger] groups[i]).len() > 0 by {
            assert(last.groups@[i]@.len() > 0);
        }
        lemma_named_groups_have_no_problems(place + ".groups"@, groups);
        persons_are_looked_at_one_by_one(init, last);
        assert(init.push(last) =~= persons);
    }
}

/// Nothing is complained of where all is in order: a configuration whose names
/// are given and differ, whose services list their paths and have the upstreams
/// that they need, and whose origin ends without a slash has no problem.
pub proof fn usable_configuration_is_valid(configuration: ServicesConfiguration)
    requires
        configuration.domain@.len() > 0,
        configuration.kanidm_origin@.len() > 0 ==> configuration.kanidm_origin@.last() != '/',
        client_ids(configuration.services@).no_duplicates(),
        person_names(configuration.persons@).no_duplicates(),
        forall|k: int|
            0 <= k < configuration.services@.len() ==> {
                let service = #[trigger] configuration.services@[k];
                &&& service.client_id@.len() > 0
                &&& service.uris@.len() > 0
                &&& forall|i: int|
                    0 <= i < service.uris@.len() ==> (#[trigger] service.uris@[i])@.len() > 0
                        && service.uris@[i]@[0] == '/'
                &&& service.upstream is None ==> service.mode is Native
                    || service.mode is Unprotected
                &&& service.upstream matches Some(address) ==> address@.contains(':')
            },
        forall|k: int|
            0 <= k < configuration.persons@.len() ==> {
                let person = #[trigger] configuration.persons@[k];
                &&& person.name@.len() > 0
                &&& forall|i: int|
                    0 <= i < person.groups@.len() ==> (#[trigger] person.groups@[i])@.len() > 0
            },
    ensures
        problems(configuration).len() == 0,
{
    first_repeated_name_is_found(client_ids(configuration.services@));
    first_repeated_name_is_found(person_names(configuration.persons@));
    complaints_say_what_is_wrong(
        configuration.kanidm_origin@,
        Seq::empty(),
        ServiceProtectionMode::Gate,
    );
    let services = configuration.services@;
    assert forall|k: int| 0 <= k < services.len() implies {
        let service = #[trigger] services[k];
        &&& length_complaint(service.client_id@) is None
        &&& upstream_complaint(service.mode, text::opt_text(service.upstream)) is None
        &&& path_complaint(text::texts(service.uris@)) is None
    } by {
        let service = services[k];
        let uris = text::texts(service.uris@);
        first_relative_path_is_found(uris);
        assert forall|i: int| 0 <= i < uris.len() implies (#[trigger] uris[i]).len() > 0
            && uris[i][0] == '/' by {
            assert(service.uris@[i]@.len() > 0);
        }
    }
    lemma_fine_services_have_no_problems(services);
    lemma_fine_persons_have_no_problems(configuration.persons@);
}

/// A verdict complains where it is an error, in the error's own words.
pub proof fn refused_values_are_complained_of(message: String)
    ensures
        complaint_of(Err(message)) == Some(message@),
        complaint_of(Ok(())) is None,
{
}

} // verus!
