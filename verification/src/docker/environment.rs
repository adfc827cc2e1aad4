//! The environment of a service: its files, its own keys and the host.

use crate::docker::definitions::{
    DockerErrorView, DockerModuleError, EnvFile, Environment, EnvironmentValue,
};
use crate::docker::paths::resolve_host_path;
use crate::docker::paths;
use crate::numbers::format_i64;
use crate::numbers;
use crate::text::{cat3, char_vec, lines_of, same, split_text_once, trim_text};
use crate::text;
use vstd::prelude::*;

verus! {

/// A variable and its value. Without a value it is taken from the host.
pub type Entry = (Seq<char>, Option<Seq<char>>);

/// A variable with its value.
pub type Binding = (Seq<char>, Seq<char>);

/// What an item of the list form says: `KEY=VALUE`, or `KEY` alone.
pub open spec fn list_entry(item: Seq<char>) -> Entry {
    match text::split_once(item, '=') {
        Some((key, value)) => (key, Some(value)),
        None => (item, None),
    }
}

/// The text of a value of the mapping form.
pub open spec fn value_text(value: EnvironmentValue) -> Option<Seq<char>> {
    match value {
        EnvironmentValue::Null => None,
        EnvironmentValue::Bool(true) => Some("true"@),
        EnvironmentValue::Bool(false) => Some("false"@),
        EnvironmentValue::Integer(number) => Some(numbers::decimal(number as int)),
        EnvironmentValue::Text(text) => Some(text@),
    }
}

/// What the `environment` key says.
pub open spec fn inline_entries(environment: Option<Environment>) -> Seq<Entry> {
    match environment {
        None => Seq::empty(),
        Some(Environment::List(items)) => Seq::new(items@.len(), |i: int| list_entry(items@[i]@)),
        Some(Environment::Mapping(pairs)) => Seq::new(
            pairs@.len(),
            |i: int| (pairs@[i].0@, value_text(pairs@[i].1)),
        ),
    }
}

/// What a line of an env file says. An empty line and a comment say nothing.
pub open spec fn line_entry(line: Seq<char>) -> Option<Entry> {
    let kept = text::trim(line);
    if kept.len() == 0 || kept[0] == '#' {
        None
    } else {
        match text::split_once(kept, '=') {
            Some((key, value)) => Some((text::trim(key), Some(text::trim(value)))),
            None => Some((kept, None)),
        }
    }
}

/// What a list of lines says, in order.
pub open spec fn line_entries(file_lines: Seq<Seq<char>>) -> Seq<Entry>
    decreases file_lines.len(),
{
    if file_lines.len() == 0 {
        Seq::empty()
    } else {
        let before = line_entries(file_lines.drop_last());
        match line_entry(file_lines.last()) {
            Some(entry) => before.push(entry),
            None => before,
        }
    }
}

/// What an env file says.
pub open spec fn file_entries(content: Seq<char>) -> Seq<Entry> {
    line_entries(text::lines(content))
}

/// What several env files say, one after the other.
pub open spec fn files_entries(contents: Seq<Seq<char>>) -> Seq<Entry>
    decreases contents.len(),
{
    if contents.len() == 0 {
        Seq::empty()
    } else {
        files_entries(contents.drop_last()) + file_entries(contents.last())
    }
}

/// The value of a variable on the host, where it is set.
pub open spec fn host_value(host: Seq<Binding>, key: Seq<char>) -> Option<Seq<char>>
    decreases host.len(),
{
    if host.len() == 0 {
        None
    } else if host[0].0 == key {
        Some(host[0].1)
    } else {
        host_value(host.skip(1), key)
    }
}

/// The value that an entry has on the given host, where it has one.
pub open spec fn entry_value(entry: Entry, host: Seq<Binding>) -> Option<Seq<char>> {
    match entry.1 {
        Some(value) => Some(value),
        None => host_value(host, entry.0),
    }
}

/// Takes missing values from the host. A variable that is not set there is
/// dropped.
pub open spec fn inherit(entries: Seq<Entry>, host: Seq<Binding>) -> Seq<Binding>
    decreases entries.len(),
{
    if entries.len() == 0 {
        Seq::empty()
    } else {
        let before = inherit(entries.drop_last(), host);
        match entry_value(entries.last(), host) {
            Some(value) => before.push((entries.last().0, value)),
            None => before,
        }
    }
}

/// The bindings of other variables than `key`.
pub open spec fn without_key(bindings: Seq<Binding>, key: Seq<char>) -> Seq<Binding>
    decreases bindings.len(),
{
    if bindings.len() == 0 {
        Seq::empty()
    } else if bindings.last().0 == key {
        without_key(bindings.drop_last(), key)
    } else {
        without_key(bindings.drop_last(), key).push(bindings.last())
    }
}

/// Keeps only the last binding of each variable.
pub open spec fn collapse(bindings: Seq<Binding>) -> Seq<Binding>
    decreases bindings.len(),
{
    if bindings.len() == 0 {
        Seq::empty()
    } else {
        without_key(collapse(bindings.drop_last()), bindings.last().0).push(bindings.last())
    }
}

/// The bindings of a service: those of its env files in order, then the inline
/// ones.
pub open spec fn service_bindings(
    contents: Seq<Seq<char>>,
    environment: Option<Environment>,
    host: Seq<Binding>,
) -> Seq<Binding> {
    collapse(inherit(files_entries(contents) + inline_entries(environment), host))
}

/// The bindings as the daemon takes them, `KEY=VALUE`.
pub open spec fn rendered(bindings: Seq<Binding>) -> Seq<Seq<char>> {
    Seq::new(bindings.len(), |i: int| bindings[i].0 + "="@ + bindings[i].1)
}

/// The entries of an executable list.
pub open spec fn entries_of(list: Seq<(String, Option<String>)>) -> Seq<Entry> {
    Seq::new(list.len(), |i: int| (list[i].0@, text::opt_text(list[i].1)))
}

/// Reads an env file: `KEY=VALUE` or `KEY` on each line, white space around a
/// name and a value not counted, empty lines and lines with a leading `#`
/// skipped. A value is taken as it stands: there is no quoting and no
/// interpolation.
pub fn parse_env_file_content(content: &str) -> (entries: Vec<(String, Option<String>)>)
    ensures
        entries_of(entries@) == file_entries(content@),
{
    let found = lines_of(content);
    let ghost all = text::texts(found@);
    let mut entries: Vec<(String, Option<String>)> = Vec::new();
    let mut i: usize = 0;
    assert(entries_of(entries@) =~= line_entries(all.take(0)));
    while i < found.len()
        invariant
            i <= found@.len(),
            all == text::texts(found@),
            entries_of(entries@) == line_entries(all.take(i as int)),
        decreases found@.len() - i,
    {
        assert(all.take(i + 1).drop_last() =~= all.take(i as int));
        assert(all.take(i + 1).last() == found@[i as int]@);
        let kept = trim_text(&found[i]);
        let chars = char_vec(&kept);
        let ghost before = entries_of(entries@);
        if chars.len() > 0 && chars[0] != '#' {
            match split_text_once(&kept, '=') {
                Some((key, value)) => {
                    let entry = (trim_text(&key), Some(trim_text(&value)));
                    let ghost pair = (entry.0@, text::opt_text(entry.1));
                    entries.push(entry);
                    assert(entries_of(entries@) =~= before.push(pair));
                },
                None => {
                    let ghost pair = (kept@, None::<Seq<char>>);
                    entries.push((kept, None));
                    assert(entries_of(entries@) =~= before.push(pair));
                },
            }
        }
        i += 1;
    }
    assert(all.take(i as int) =~= all);
    entries
}

/// The value of a variable on the host.
fn find_host_value(host: &Vec<(String, String)>, key: &str) -> (value: Option<String>)
    ensures
        text::opt_text(value) == host_value(text::text_pairs(host@), key@),
{
    let ghost all = text::text_pairs(host@);
    let mut i: usize = 0;
    assert(all.skip(0) =~= all);
    while i < host.len()
        invariant
            i <= host@.len(),
            all == text::text_pairs(host@),
            host_value(all, key@) == host_value(all.skip(i as int), key@),
        decreases host@.len() - i,
    {
        assert(all.skip(i as int)[0] == (host@[i as int].0@, host@[i as int].1@));
        assert(all.skip(i as int).skip(1) =~= all.skip(i + 1));
        if same(&host[i].0, key) {
            return Some(host[i].1.clone());
        }
        i += 1;
    }
    None
}

/// What the `environment` key says.
fn entries_from(environment: &Option<Environment>) -> (entries: Vec<(String, Option<String>)>)
    ensures
        entries_of(entries@) == inline_entries(*environment),
{
    let mut entries: Vec<(String, Option<String>)> = Vec::new();
    match environment {
        None => {},
        Some(Environment::List(items)) => {
            for i in 0..items.len()
                invariant
                    entries@.len() == i,
                    forall|j: int|
                        0 <= j < i ==> entries_of(entries@)[j] == list_entry(
                            (#[trigger] items@[j])@,
                        ),
            {
                let ghost before = entries_of(entries@);
                let entry = match split_text_once(&items[i], '=') {
                    Some((key, value)) => (key, Some(value)),
                    None => (items[i].clone(), None),
                };
                let ghost pair = (entry.0@, text::opt_text(entry.1));
                entries.push(entry);
                assert(entries_of(entries@) =~= before.push(pair));
            }
        },
        Some(Environment::Mapping(pairs)) => {
            for i in 0..pairs.len()
                invariant
                    entries@.len() == i,
                    forall|j: int|
                        0 <= j < i ==> entries_of(entries@)[j] == ((#[trigger] pairs@[j]).0@, value_text(
                            pairs@[j].1,
                        )),
            {
                let ghost before = entries_of(entries@);
                let value = match &pairs[i].1 {
                    EnvironmentValue::Null => None,
                    EnvironmentValue::Bool(flag) => Some(
                        if *flag {
                            "true".to_owned()
                        } else {
                            "false".to_owned()
                        },
                    ),
                    EnvironmentValue::Integer(number) => Some(format_i64(*number)),
                    EnvironmentValue::Text(text) => Some(text.clone()),
                };
                let entry = (pairs[i].0.clone(), value);
                let ghost pair = (entry.0@, text::opt_text(entry.1));
                entries.push(entry);
                assert(entries_of(entries@) =~= before.push(pair));
            }
        },
    }
    assert(entries_of(entries@) =~= inline_entries(*environment));
    entries
}

/// Removes the bindings of one variable.
fn drop_key(bindings: Vec<(String, String)>, key: &str) -> (kept: Vec<(String, String)>)
    ensures
        text::text_pairs(kept@) == without_key(text::text_pairs(bindings@), key@),
{
    let ghost all = text::text_pairs(bindings@);
    let mut kept: Vec<(String, String)> = Vec::new();
    let mut i: usize = 0;
    assert(text::text_pairs(kept@) =~= without_key(all.take(0), key@));
    while i < bindings.len()
        invariant
            i <= bindings@.len(),
            all == text::text_pairs(bindings@),
            text::text_pairs(kept@) == without_key(all.take(i as int), key@),
        decreases bindings@.len() - i,
    {
        assert(all.take(i + 1).drop_last() =~= all.take(i as int));
        assert(all.take(i + 1).last() == (bindings@[i as int].0@, bindings@[i as int].1@));
        let ghost before = text::text_pairs(kept@);
        if !same(&bindings[i].0, key) {
            kept.push((bindings[i].0.clone(), bindings[i].1.clone()));
            assert(text::text_pairs(kept@) =~= before.push(all[i as int]));
        }
        i += 1;
    }
    assert(all.take(i as int) =~= all);
    kept
}

/// Takes entries one after the other: a later binding replaces an earlier one of
/// the same variable.
fn bind_entries(
    mut bindings: Vec<(String, String)>,
    entries: &Vec<(String, Option<String>)>,
    host: &Vec<(String, String)>,
    Ghost(seen): Ghost<Seq<Entry>>,
) -> (bound: Vec<(String, String)>)
    requires
        text::text_pairs(bindings@) == collapse(inherit(seen, text::text_pairs(host@))),
    ensures
        text::text_pairs(bound@) == collapse(
            inherit(seen + entries_of(entries@), text::text_pairs(host@)),
        ),
{
    let ghost more = entries_of(entries@);
    let ghost names = text::text_pairs(host@);
    let mut i: usize = 0;
    assert(seen + more.take(0) =~= seen);
    while i < entries.len()
        invariant
            i <= entries@.len(),
            more == entries_of(entries@),
            names == text::text_pairs(host@),
            text::text_pairs(bindings@) == collapse(inherit(seen + more.take(i as int), names)),
        decreases entries@.len() - i,
    {
        let ghost next = seen + more.take(i + 1);
        assert(next.drop_last() =~= seen + more.take(i as int));
        assert(next.last() == more[i as int]);
        let key = &entries[i].0;
        let value = match &entries[i].1 {
            Some(value) => Some(value.clone()),
            None => find_host_value(host, key),
        };
        assert(text::opt_text(value) == entry_value(more[i as int], names));
        if let Some(value) = value {
            let ghost binding = (key@, value@);
            let ghost grown = inherit(seen + more.take(i as int), names).push(binding);
            assert(inherit(next, names) == grown);
            assert(grown.drop_last() =~= inherit(seen + more.take(i as int), names));
            bindings = drop_key(bindings, key);
            let ghost before = text::text_pairs(bindings@);
            bindings.push((key.clone(), value));
            assert(text::text_pairs(bindings@) =~= before.push(binding));
        }
        i += 1;
    }
    assert(more.take(i as int) =~= more);
    bindings
}

/// The environment of a service, as `KEY=VALUE` texts: the variables of the env
/// files in the order of the files, then the inline ones, a later binding in
/// place of an earlier one. A variable without a value is taken from the host,
/// and dropped where it is not set there.
pub fn resolve_environment(
    environment: &Option<Environment>,
    env_file_contents: &Vec<String>,
    host: &Vec<(String, String)>,
) -> (env: Vec<String>)
    ensures
        text::texts(env@) == rendered(
            service_bindings(text::texts(env_file_contents@), *environment, text::text_pairs(host@)),
        ),
{
    let ghost contents = text::texts(env_file_contents@);
    let ghost names = text::text_pairs(host@);
    let mut bindings: Vec<(String, String)> = Vec::new();
    let mut i: usize = 0;
    assert(contents.take(0) =~= Seq::empty());
    assert(text::text_pairs(bindings@) =~= collapse(inherit(files_entries(contents.take(0)), names)));
    while i < env_file_contents.len()
        invariant
            i <= env_file_contents@.len(),
            contents == text::texts(env_file_contents@),
            names == text::text_pairs(host@),
            text::text_pairs(bindings@) == collapse(
                inherit(files_entries(contents.take(i as int)), names),
            ),
        decreases env_file_contents@.len() - i,
    {
        assert(contents.take(i + 1).drop_last() =~= contents.take(i as int));
        assert(contents.take(i + 1).last() == env_file_contents@[i as int]@);
        let entries = parse_env_file_content(&env_file_contents[i]);
        bindings =
        bind_entries(bindings, &entries, host, Ghost(files_entries(contents.take(i as int))));
        i += 1;
    }
    assert(contents.take(i as int) =~= contents);
    let inline = entries_from(environment);
    bindings = bind_entries(bindings, &inline, host, Ghost(files_entries(contents)));
    let mut env: Vec<String> = Vec::new();
    let mut k: usize = 0;
    let ghost bound = text::text_pairs(bindings@);
    while k < bindings.len()
        invariant
            k <= bindings@.len(),
            bound == text::text_pairs(bindings@),
            env@.len() == k,
            forall|j: int|
                0 <= j < k ==> #[trigger] env@[j]@ == bound[j].0 + "="@ + bound[j].1,
        decreases bindings@.len() - k,
    {
        env.push(cat3(&bindings[k].0, "=", &bindings[k].1));
        k += 1;
    }
    assert(text::texts(env@) =~= rendered(bound));
    env
}

/// The files that an `env_file` key lists.
pub open spec fn env_file_names(env_file: Option<EnvFile>) -> Seq<Seq<char>> {
    match env_file {
        None => Seq::empty(),
        Some(EnvFile::One(name)) => seq![name@],
        Some(EnvFile::Many(names)) => text::texts(names@),
    }
}

/// The paths of files that are named relative to the compose file, up to the
/// first that cannot be resolved.
pub open spec fn resolved_paths(
    names: Seq<Seq<char>>,
    compose_dir: Seq<char>,
    home: Option<Seq<char>>,
) -> Result<Seq<Seq<char>>, DockerErrorView>
    decreases names.len(),
{
    if names.len() == 0 {
        Ok(Seq::empty())
    } else {
        match resolved_paths(names.drop_last(), compose_dir, home) {
            Err(error) => Err(error),
            Ok(before) => match paths::host_path(names.last(), compose_dir, home) {
                Err(error) => Err(error),
                Ok(path) => Ok(before.push(path)),
            },
        }
    }
}

proof fn lemma_resolved_paths_prefix(
    names: Seq<Seq<char>>,
    upto: int,
    compose_dir: Seq<char>,
    home: Option<Seq<char>>,
)
    requires
        0 <= upto <= names.len(),
        resolved_paths(names.take(upto), compose_dir, home) is Err,
    ensures
        resolved_paths(names, compose_dir, home) == resolved_paths(
            names.take(upto),
            compose_dir,
            home,
        ),
    decreases names.len() - upto,
{
    if upto == names.len() {
        assert(names.take(upto) =~= names);
    } else {
        assert(names.take(upto + 1).drop_last() =~= names.take(upto));
        lemma_resolved_paths_prefix(names, upto + 1, compose_dir, home);
    }
}

/// The paths of the files that an `env_file` key lists, in order.
pub fn env_file_paths(
    env_file: &Option<EnvFile>,
    compose_dir: &str,
    home: Option<&str>,
) -> (result: Result<Vec<String>, DockerModuleError>)
    ensures
        match result {
            Ok(paths) => resolved_paths(env_file_names(*env_file), compose_dir@, paths::opt_str(home))
                == Ok::<Seq<Seq<char>>, DockerErrorView>(text::texts(paths@)),
            Err(error) => resolved_paths(env_file_names(*env_file), compose_dir@, paths::opt_str(home))
                == Err::<Seq<Seq<char>>, DockerErrorView>(error@),
        },
{
    let ghost wanted = env_file_names(*env_file);
    let names: Vec<String> = match env_file {
        None => Vec::new(),
        Some(EnvFile::One(name)) => vec![name.clone()],
        Some(EnvFile::Many(names)) => crate::text::clone_all(names),
    };
    assert(text::texts(names@) =~= wanted);
    let mut paths: Vec<String> = Vec::new();
    let mut i: usize = 0;
    assert(text::texts(paths@) =~= Seq::empty());
    while i < names.len()
        invariant
            i <= names@.len(),
            wanted == text::texts(names@),
            wanted == env_file_names(*env_file),
            resolved_paths(wanted.take(i as int), compose_dir@, paths::opt_str(home)) == Ok::<
                Seq<Seq<char>>,
                DockerErrorView,
            >(text::texts(paths@)),
        decreases names@.len() - i,
    {
        assert(wanted.take(i + 1).drop_last() =~= wanted.take(i as int));
        assert(wanted.take(i + 1).last() == names@[i as int]@);
        let ghost before = text::texts(paths@);
        match resolve_host_path(&names[i], compose_dir, home) {
            Ok(path) => {
                let ghost found = path@;
                paths.push(path);
                assert(text::texts(paths@) =~= before.push(found));
            },
            Err(error) => {
                proof {
                    lemma_resolved_paths_prefix(wanted, i + 1, compose_dir@, paths::opt_str(home));
                }
                return Err(error);
            },
        }
        i += 1;
    }
    assert(wanted.take(i as int) =~= wanted);
    Ok(paths)
}

// ---------------------------------------------------------------------------
// Laws of the environment
// ---------------------------------------------------------------------------

/// The last value that is bound to a variable.
pub open spec fn last_value(bindings: Seq<Binding>, key: Seq<char>) -> Option<Seq<char>>
    decreases bindings.len(),
{
    if bindings.len() == 0 {
        None
    } else if bindings.last().0 == key {
        Some(bindings.last().1)
    } else {
        last_value(bindings.drop_last(), key)
    }
}

/// Whether no variable is bound twice.
pub open spec fn keys_distinct(bindings: Seq<Binding>) -> bool {
    forall|i: int, j: int|
        0 <= i < j < bindings.len() ==> (#[trigger] bindings[i]).0 != (#[trigger] bindings[j]).0
}

proof fn lemma_without_key(bindings: Seq<Binding>, key: Seq<char>, other: Seq<char>)
    ensures
        last_value(without_key(bindings, key), other) == (if other == key {
            None
        } else {
            last_value(bindings, other)
        }),
        keys_distinct(bindings) ==> keys_distinct(without_key(bindings, key)),
        forall|i: int|
            0 <= i < without_key(bindings, key).len() ==> {
                &&& (#[trigger] without_key(bindings, key)[i]).0 != key
                &&& bindings.contains(without_key(bindings, key)[i])
            },
    decreases bindings.len(),
{
    if bindings.len() > 0 {
        let init = bindings.drop_last();
        let last = bindings.last();
        lemma_without_key(init, key, other);
        let before = without_key(init, key);
        let after = without_key(bindings, key);
        assert forall|i: int| 0 <= i < after.len() implies {
            &&& (#[trigger] after[i]).0 != key
            &&& bindings.contains(after[i])
        } by {
            if i < before.len() {
                assert(before[i] == after[i]);
                assert(init.contains(before[i]));
                let k = choose|k: int| 0 <= k < init.len() && init[k] == before[i];
                assert(bindings[k] == after[i]);
            } else {
                assert(bindings[bindings.len() - 1] == after[i]);
            }
        }
        if last.0 != key {
            assert(after.drop_last() =~= before);
        }
        if keys_distinct(bindings) {
            assert forall|i: int, j: int| 0 <= i < j < init.len() implies (#[trigger] init[i]).0
                != (#[trigger] init[j]).0 by {
                assert(bindings[i].0 != bindings[j].0);
            }
            assert(keys_distinct(after)) by {
                assert forall|i: int, j: int| 0 <= i < j < after.len() implies (
                #[trigger] after[i]).0 != (#[trigger] after[j]).0 by {
                    if last.0 != key && j == after.len() - 1 {
                        assert(before[i] == after[i]);
                        assert(init.contains(before[i]));
                        let k = choose|k: int| 0 <= k < init.len() && init[k] == before[i];
                        assert(bindings[k].0 != bindings[bindings.len() - 1].0);
                    } else {
                        assert(before[i] == after[i] && before[j] == after[j]);
                    }
                }
            }
        }
    }
}

/// A variable that is bound several times collapses to its last binding: no
/// variable is bound twice, and each one keeps its last value.
pub proof fn collapse_keeps_the_last_value(bindings: Seq<Binding>, key: Seq<char>)
    ensures
        keys_distinct(collapse(bindings)),
        last_value(collapse(bindings), key) == last_value(bindings, key),
    decreases bindings.len(),
{
    if bindings.len() > 0 {
        let init = bindings.drop_last();
        let last = bindings.last();
        collapse_keeps_the_last_value(init, key);
        let before = without_key(collapse(init), last.0);
        lemma_without_key(collapse(init), last.0, key);
        let after = collapse(bindings);
        assert(after.drop_last() =~= before);
        assert forall|i: int, j: int| 0 <= i < j < after.len() implies (#[trigger] after[i]).0 != (
        #[trigger] after[j]).0 by {
            if j == after.len() - 1 {
                assert(before[i] == after[i]);
            } else {
                assert(before[i] == after[i] && before[j] == after[j]);
            }
        }
    }
}

proof fn lemma_last_value_append(first: Seq<Binding>, second: Seq<Binding>, key: Seq<char>)
    ensures
        last_value(first + second, key) == (match last_value(second, key) {
            Some(value) => Some(value),
            None => last_value(first, key),
        }),
    decreases second.len(),
{
    if second.len() == 0 {
        assert(first + second =~= first);
    } else {
        assert((first + second).drop_last() =~= first + second.drop_last());
        lemma_last_value_append(first, second.drop_last(), key);
    }
}

proof fn lemma_inherit_append(first: Seq<Entry>, second: Seq<Entry>, host: Seq<Binding>)
    ensures
        inherit(first + second, host) == inherit(first, host) + inherit(second, host),
    decreases second.len(),
{
    if second.len() == 0 {
        assert(first + second =~= first);
        assert(inherit(first, host) + inherit(second, host) =~= inherit(first, host));
    } else {
        assert((first + second).drop_last() =~= first + second.drop_last());
        lemma_inherit_append(first, second.drop_last(), host);
        assert(inherit(first + second, host) =~= inherit(first, host) + inherit(second, host));
    }
}

/// The inline environment stands above the env files: a variable has the last
/// value that the inline environment gives it, and the one from the files only
/// where the inline environment gives it none.
pub proof fn inline_environment_wins(
    contents: Seq<Seq<char>>,
    environment: Option<Environment>,
    host: Seq<Binding>,
    key: Seq<char>,
)
    ensures
        last_value(service_bindings(contents, environment, host), key) == (match last_value(
            inherit(inline_entries(environment), host),
            key,
        ) {
            Some(value) => Some(value),
            None => last_value(inherit(files_entries(contents), host), key),
        }),
        keys_distinct(service_bindings(contents, environment, host)),
{
    let files = files_entries(contents);
    let inline = inline_entries(environment);
    lemma_inherit_append(files, inline, host);
    lemma_last_value_append(inherit(files, host), inherit(inline, host), key);
    collapse_keeps_the_last_value(inherit(files + inline, host), key);
}

/// An item of the list is cut at its first equals sign: the key holds none, and
/// key, equals sign and value are the item. An item without one is a key alone.
pub proof fn items_are_cut_at_the_first_equals_sign(item: Seq<char>)
    ensures
        item.contains('=') ==> {
            &&& list_entry(item).1 is Some
            &&& !list_entry(item).0.contains('=')
            &&& list_entry(item).0 + seq!['='] + list_entry(item).1->0 == item
        },
        !item.contains('=') ==> list_entry(item) == (item, None::<Seq<char>>),
{
    text::cut_is_at_the_first_separator(item, '=');
    if !item.contains('=') {
        text::whole_text_is_not_cut(item, '=');
    }
}

proof fn lemma_without_absent_key(bindings: Seq<Binding>, key: Seq<char>)
    requires
        forall|i: int| 0 <= i < bindings.len() ==> (#[trigger] bindings[i]).0 != key,
    ensures
        without_key(bindings, key) == bindings,
    decreases bindings.len(),
{
    if bindings.len() > 0 {
        let init = bindings.drop_last();
        assert forall|i: int| 0 <= i < init.len() implies (#[trigger] init[i]).0 != key by {
            assert(init[i] == bindings[i]);
        }
        lemma_without_absent_key(init, key);
        assert(bindings[bindings.len() - 1].0 != key);
        assert(init.push(bindings.last()) =~= bindings);
    }
}

/// Variables that are bound once stay as they are, in order; a binding that comes
/// last stands last.
pub proof fn distinct_bindings_stay(bindings: Seq<Binding>, last: Binding)
    ensures
        keys_distinct(bindings) ==> collapse(bindings) == bindings,
        collapse(bindings.push(last)).last() == last,
    decreases bindings.len(),
{
    assert(bindings.push(last).drop_last() =~= bindings);
    if bindings.len() > 0 && keys_distinct(bindings) {
        let init = bindings.drop_last();
        assert forall|i: int, j: int| 0 <= i < j < init.len() implies (#[trigger] init[i]).0 != (
        #[trigger] init[j]).0 by {
            assert(bindings[i].0 != bindings[j].0);
        }
        distinct_bindings_stay(init, last);
        assert forall|i: int| 0 <= i < init.len() implies (#[trigger] init[i]).0
            != bindings.last().0 by {
            assert(bindings[i].0 != bindings[bindings.len() - 1].0);
        }
        lemma_without_absent_key(init, bindings.last().0);
        assert(init.push(bindings.last()) =~= bindings);
    }
}

proof fn lemma_inherit_given(entries: Seq<Entry>, host: Seq<Binding>)
    requires
        forall|i: int| 0 <= i < entries.len() ==> (#[trigger] entries[i]).1 is Some,
    ensures
        inherit(entries, host) == Seq::new(
            entries.len(),
            |i: int| (entries[i].0, entries[i].1->0),
        ),
    decreases entries.len(),
{
    let given = Seq::new(entries.len(), |i: int| (entries[i].0, entries[i].1->0));
    if entries.len() > 0 {
        let init = entries.drop_last();
        assert forall|i: int| 0 <= i < init.len() implies (#[trigger] init[i]).1 is Some by {
            assert(init[i] == entries[i]);
        }
        lemma_inherit_given(init, host);
        assert(entries[entries.len() - 1].1 is Some);
        assert(inherit(entries, host) =~= given);
    } else {
        assert(inherit(entries, host) =~= given);
    }
}

/// A list of items `KEY=VALUE` with distinct keys becomes exactly these items, in
/// order, whatever the host has.
pub proof fn listed_environment_is_passed_as_written(
    items: Vec<String>,
    keys: Seq<Seq<char>>,
    values: Seq<Seq<char>>,
    host: Seq<Binding>,
)
    requires
        keys.len() == items@.len(),
        values.len() == items@.len(),
        forall|i: int|
            0 <= i < items@.len() ==> (#[trigger] items@[i])@ == keys[i] + seq!['='] + values[i],
        forall|i: int| 0 <= i < keys.len() ==> !(#[trigger] keys[i]).contains('='),
        keys.no_duplicates(),
    ensures
        rendered(service_bindings(Seq::empty(), Some(Environment::List(items)), host))
            == text::texts(items@),
{
    reveal_strlit("=");
    assert("="@ =~= seq!['=']);
    let environment = Some(Environment::List(items));
    let entries = inline_entries(environment);
    assert(files_entries(Seq::empty()) + entries =~= entries);
    assert forall|i: int| 0 <= i < entries.len() implies #[trigger] entries[i] == (
        keys[i],
        Some(values[i]),
    ) by {
        assert(items@[i]@ == keys[i] + seq!['='] + values[i]);
        text::parts_are_told_apart(keys[i], values[i], '=');
    }
    lemma_inherit_given(entries, host);
    let bindings = inherit(entries, host);
    assert forall|i: int, j: int| 0 <= i < j < bindings.len() implies (#[trigger] bindings[i]).0 != (
    #[trigger] bindings[j]).0 by {
        assert(entries[i].0 == keys[i] && entries[j].0 == keys[j]);
        assert(keys[i] != keys[j]);
    }
    distinct_bindings_stay(bindings, (Seq::empty(), Seq::empty()));
    assert forall|i: int| 0 <= i < items@.len() implies #[trigger] rendered(bindings)[i]
        == text::texts(items@)[i] by {
        assert(entries[i] == (keys[i], Some(values[i])));
        assert(items@[i]@ == keys[i] + seq!['='] + values[i]);
    }
    assert(rendered(bindings) =~= text::texts(items@));
}

/// A mapping with distinct keys becomes one `KEY=VALUE` for each, in order: a
/// text as it is, a truth value as its word, an integer in decimal.
pub proof fn mapped_environment_is_passed_as_written(
    pairs: Vec<(String, EnvironmentValue)>,
    host: Seq<Binding>,
    i: int,
)
    requires
        forall|k: int| 0 <= k < pairs@.len() ==> !((#[trigger] pairs@[k]).1 is Null),
        forall|k: int, j: int|
            0 <= k < j < pairs@.len() ==> (#[trigger] pairs@[k]).0@ != (#[trigger] pairs@[j]).0@,
        0 <= i < pairs@.len(),
    ensures
        ({
            let passed = rendered(
                service_bindings(Seq::empty(), Some(Environment::Mapping(pairs)), host),
            );
            &&& passed.len() == pairs@.len()
            &&& passed[i] == pairs@[i].0@ + seq!['='] + (match pairs@[i].1 {
                EnvironmentValue::Text(text) => text@,
                EnvironmentValue::Bool(flag) => if flag {
                    "true"@
                } else {
                    "false"@
                },
                EnvironmentValue::Integer(number) => numbers::decimal(number as int),
                EnvironmentValue::Null => Seq::empty(),
            })
        }),
{
    reveal_strlit("=");
    assert("="@ =~= seq!['=']);
    let environment = Some(Environment::Mapping(pairs));
    let entries = inline_entries(environment);
    assert(files_entries(Seq::empty()) + entries =~= entries);
    assert forall|k: int| 0 <= k < entries.len() implies (#[trigger] entries[k]).1 is Some by {
        assert(!(pairs@[k].1 is Null));
    }
    lemma_inherit_given(entries, host);
    let bindings = inherit(entries, host);
    assert forall|k: int, j: int| 0 <= k < j < bindings.len() implies (#[trigger] bindings[k]).0 != (
    #[trigger] bindings[j]).0 by {
        assert(pairs@[k].0@ != pairs@[j].0@);
    }
    distinct_bindings_stay(bindings, (Seq::empty(), Seq::empty()));
    assert(!(pairs@[i].1 is Null));
}

proof fn lemma_host_value(host: Seq<Binding>, key: Seq<char>, at: int)
    requires
        0 <= at <= host.len(),
        forall|j: int| 0 <= j < at ==> (#[trigger] host[j]).0 != key,
        at < host.len() ==> host[at].0 == key,
    ensures
        host_value(host, key) == (if at < host.len() {
            Some(host[at].1)
        } else {
            None
        }),
    decreases at,
{
    if at > 0 {
        assert(host[0].0 != key);
        let rest = host.skip(1);
        assert forall|j: int| 0 <= j < at - 1 implies (#[trigger] rest[j]).0 != key by {
            assert(rest[j] == host[j + 1]);
        }
        lemma_host_value(rest, key, at - 1);
    }
}

/// A key without a value takes the one that the host has, and is dropped where
/// the host has none. That is how an item without an equals sign and a null in a
/// mapping are read.
pub proof fn bare_keys_come_from_the_host(
    key: Seq<char>,
    host: Seq<Binding>,
    at: int,
)
    requires
        0 <= at <= host.len(),
        forall|j: int| 0 <= j < at ==> (#[trigger] host[j]).0 != key,
        at < host.len() ==> host[at].0 == key,
        !key.contains('='),
    ensures
        list_entry(key) == (key, None::<Seq<char>>),
        value_text(EnvironmentValue::Null) is None,
        inherit(seq![(key, None)], host) == (if at < host.len() {
            seq![(key, host[at].1)]
        } else {
            Seq::empty()
        }),
{
    items_are_cut_at_the_first_equals_sign(key);
    lemma_host_value(host, key, at);
    let entries = seq![(key, None::<Seq<char>>)];
    assert(entries.drop_last() =~= Seq::empty());
    assert(inherit(entries.drop_last(), host) =~= Seq::empty());
    assert(inherit(entries, host) =~= (if at < host.len() {
        seq![(key, host[at].1)]
    } else {
        Seq::empty()
    }));
}

/// A value that is given is taken, whatever the host has, and entries are taken
/// one after the other.
pub proof fn given_values_are_taken(
    first: Seq<Entry>,
    second: Seq<Entry>,
    key: Seq<char>,
    value: Seq<char>,
    host: Seq<Binding>,
)
    ensures
        inherit(seq![(key, Some(value))], host) == seq![(key, value)],
        inherit(first + second, host) == inherit(first, host) + inherit(second, host),
{
    lemma_inherit_append(first, second, host);
    let entries = seq![(key, Some(value))];
    assert(entries.drop_last() =~= Seq::empty());
    assert(inherit(entries.drop_last(), host) =~= Seq::empty());
    assert(inherit(entries, host) =~= seq![(key, value)]);
}

proof fn lemma_padded_text(text: Seq<char>, back: Seq<char>)
    requires
        forall|i: int| 0 <= i < back.len() ==> text::is_whitespace(#[trigger] back[i]),
        text.len() > 0 ==> !text::is_whitespace(text[0]) && !text::is_whitespace(text.last()),
    ensures
        text::trim(text + back) == text,
        text::trim(back + text) == text,
        text::trim(text) == text,
{
    let nothing = Seq::<char>::empty();
    text::white_space_around_goes(nothing, text, back);
    assert(nothing + text + back =~= text + back);
    text::white_space_around_goes(back, text, nothing);
    assert(back + text + nothing =~= back + text);
    text::white_space_around_goes(nothing, text, nothing);
    assert(nothing + text + nothing =~= text);
}

/// A line of an env file binds what stands before its first equals sign to what
/// stands behind it, both without the white space around them.
pub proof fn env_file_line_binds_key_to_value(
    front: Seq<char>,
    key: Seq<char>,
    left: Seq<char>,
    right: Seq<char>,
    value: Seq<char>,
    back: Seq<char>,
)
    requires
        forall|i: int| 0 <= i < front.len() ==> text::is_whitespace(#[trigger] front[i]),
        forall|i: int| 0 <= i < left.len() ==> text::is_whitespace(#[trigger] left[i]),
        forall|i: int| 0 <= i < right.len() ==> text::is_whitespace(#[trigger] right[i]),
        forall|i: int| 0 <= i < back.len() ==> text::is_whitespace(#[trigger] back[i]),
        key.len() > 0,
        !text::is_whitespace(key[0]),
        !text::is_whitespace(key.last()),
        key[0] != '#',
        !key.contains('='),
        value.len() > 0 ==> !text::is_whitespace(value[0]) && !text::is_whitespace(value.last()),
    ensures
        line_entry(front + key + left + seq!['='] + right + value + back) == Some(
            (key, Some(value)),
        ),
        line_entry(front + key + back) == Some((key, None::<Seq<char>>)),
{
    let line = front + key + left + seq!['='] + right + value + back;
    let named = key + left;
    let nothing = Seq::<char>::empty();
    let tail = if value.len() > 0 {
        right + value
    } else {
        nothing
    };
    let core = named + seq!['='] + tail;
    let rest = if value.len() > 0 {
        back
    } else {
        right + back
    };
    assert forall|i: int| 0 <= i < rest.len() implies text::is_whitespace(#[trigger] rest[i]) by {
        if value.len() == 0 {
            if i < right.len() {
                assert(rest[i] == right[i]);
            } else {
                assert(rest[i] == back[i - right.len()]);
            }
        }
    }
    assert(core[0] == key[0]);
    if value.len() == 0 {
        assert(value =~= nothing);
        assert(line =~= front + core + rest);
    } else {
        assert(line =~= front + core + rest);
    }
    if value.len() > 0 {
        assert(core.last() == value.last());
    } else {
        assert(core.last() == '=');
    }
    text::white_space_around_goes(front, core, rest);
    assert(!named.contains('=')) by {
        assert forall|i: int| 0 <= i < named.len() implies named[i] != '=' by {
            if i < key.len() {
                assert(key.contains(key[i]));
            } else {
                assert(text::is_whitespace(left[i - key.len()]));
            }
        }
    }
    text::parts_are_told_apart(named, tail, '=');
    lemma_padded_text(key, left);
    lemma_padded_text(value, right);
    if value.len() == 0 {
        assert(value =~= nothing);
        lemma_padded_text(nothing, nothing);
    }
    text::white_space_around_goes(front, key, back);
    text::whole_text_is_not_cut(key, '=');
}

/// A blank line binds nothing, and neither does a comment.
pub proof fn comments_bind_nothing(front: Seq<char>, rest: Seq<char>)
    requires
        forall|i: int| 0 <= i < front.len() ==> text::is_whitespace(#[trigger] front[i]),
    ensures
        line_entry(front) is None,
        line_entry(front + seq!['#'] + rest) is None,
{
    let nothing = Seq::<char>::empty();
    text::white_space_around_goes(front, nothing, nothing);
    assert(front + nothing + nothing =~= front);
    text::first_mark_stays_first(front, '#', rest);
}

proof fn lemma_line_entries_append(first: Seq<Seq<char>>, second: Seq<Seq<char>>)
    ensures
        line_entries(first + second) == line_entries(first) + line_entries(second),
    decreases second.len(),
{
    if second.len() == 0 {
        assert(first + second =~= first);
        assert(line_entries(first) + line_entries(second) =~= line_entries(first));
    } else {
        assert((first + second).drop_last() =~= first + second.drop_last());
        lemma_line_entries_append(first, second.drop_last());
        assert(line_entries(first + second) =~= line_entries(first) + line_entries(second));
    }
}

/// An env file is read line by line, from the first to the last: each line adds
/// what it binds, and a carriage return before its end does not count.
pub proof fn env_file_is_read_line_by_line(line: Seq<char>, rest: Seq<char>)
    requires
        !line.contains('\n'),
    ensures
        ({
            let kept = if line.len() > 0 && line.last() == '\r' {
                line.drop_last()
            } else {
                line
            };
            file_entries(line + seq!['\n'] + rest) == (match line_entry(kept) {
                Some(entry) => seq![entry],
                None => Seq::empty(),
            }) + file_entries(rest)
        }),
        file_entries(line) == (match line_entry(line) {
            Some(entry) => seq![entry],
            None => Seq::empty(),
        }),
{
    text::lines_follow_each_other(line, rest);
    let kept = if line.len() > 0 && line.last() == '\r' {
        line.drop_last()
    } else {
        line
    };
    lemma_line_entries_append(seq![kept], text::lines(rest));
    lemma_single_line(kept);
    lemma_single_line(line);
    if line.len() == 0 {
        comments_bind_nothing(line, line);
        assert(file_entries(line) =~= Seq::empty());
    }
}

proof fn lemma_single_line(line: Seq<char>)
    ensures
        line_entries(seq![line]) == (match line_entry(line) {
            Some(entry) => seq![entry],
            None => Seq::empty(),
        }),
{
    let one = seq![line];
    assert(one.drop_last() =~= Seq::empty());
    assert(line_entries(one.drop_last()) =~= Seq::empty());
    assert(line_entries(one) =~= (match line_entry(line) {
        Some(entry) => seq![entry],
        None => Seq::empty(),
    }));
}

/// Env files add up in the order in which they are listed.
pub proof fn env_files_add_up_in_order(
    first: Seq<Seq<char>>,
    second: Seq<Seq<char>>,
    content: Seq<char>,
)
    ensures
        files_entries(first + second) == files_entries(first) + files_entries(second),
        files_entries(seq![content]) == file_entries(content),
    decreases second.len(),
{
    let one = seq![content];
    assert(one.drop_last() =~= Seq::empty());
    assert(files_entries(one.drop_last()) =~= Seq::empty());
    assert(files_entries(one) =~= file_entries(content));
    if second.len() == 0 {
        assert(first + second =~= first);
        assert(files_entries(first) + files_entries(second) =~= files_entries(first));
    } else {
        assert((first + second).drop_last() =~= first + second.drop_last());
        env_files_add_up_in_order(first, second.drop_last(), content);
        assert(files_entries(first + second) =~= files_entries(first) + files_entries(second));
    }
}

/// A later env file stands above the earlier ones.
pub proof fn later_env_file_wins(
    contents: Seq<Seq<char>>,
    last: Seq<char>,
    host: Seq<Binding>,
    key: Seq<char>,
)
    ensures
        last_value(service_bindings(contents.push(last), None, host), key) == (match last_value(
            inherit(file_entries(last), host),
            key,
        ) {
            Some(value) => Some(value),
            None => last_value(service_bindings(contents, None, host), key),
        }),
{
    let none = inline_entries(None);
    assert(contents.push(last) =~= contents + seq![last]);
    env_files_add_up_in_order(contents, seq![last], last);
    assert(files_entries(contents.push(last)) + none =~= files_entries(contents) + file_entries(
        last,
    ));
    assert(files_entries(contents) + none =~= files_entries(contents));
    lemma_inherit_append(files_entries(contents), file_entries(last), host);
    lemma_last_value_append(
        inherit(files_entries(contents), host),
        inherit(file_entries(last), host),
        key,
    );
    collapse_keeps_the_last_value(inherit(files_entries(contents.push(last)) + none, host), key);
    collapse_keeps_the_last_value(inherit(files_entries(contents) + none, host), key);
}

/// The env files of a service are the ones that it lists, in order, each at the
/// path on the host that its name is.
pub proof fn env_files_are_the_listed_ones(
    one: String,
    many: Vec<String>,
    names: Seq<Seq<char>>,
    compose_dir: Seq<char>,
    home: Option<Seq<char>>,
)
    ensures
        env_file_names(None) == Seq::<Seq<char>>::empty(),
        env_file_names(Some(EnvFile::One(one))) == seq![one@],
        env_file_names(Some(EnvFile::Many(many))).len() == many@.len(),
        forall|i: int|
            0 <= i < many@.len() ==> #[trigger] env_file_names(Some(EnvFile::Many(many)))[i]
                == many@[i]@,
        resolved_paths(names, compose_dir, home) matches Ok(found) ==> found.len() == names.len()
            && forall|i: int|
            0 <= i < names.len() ==> paths::host_path(names[i], compose_dir, home) == Ok::<
                Seq<char>,
                DockerErrorView,
            >(#[trigger] found[i]),
        resolved_paths(names, compose_dir, home) matches Err(error) ==> exists|k: int|
            0 <= k < names.len() && paths::host_path(#[trigger] names[k], compose_dir, home)
                == Err::<Seq<char>, DockerErrorView>(error),
    decreases names.len(),
{
    if names.len() > 0 {
        env_files_are_the_listed_ones(one, many, names.drop_last(), compose_dir, home);
        if let Err(error) = resolved_paths(names.drop_last(), compose_dir, home) {
            let k = choose|k: int|
                0 <= k < names.drop_last().len() && paths::host_path(
                    #[trigger] names.drop_last()[k],
                    compose_dir,
                    home,
                ) == Err::<Seq<char>, DockerErrorView>(error);
            assert(names[k] == names.drop_last()[k]);
        } else if let Err(error) = resolved_paths(names, compose_dir, home) {
            assert(names[names.len() - 1] == names.last());
        }
    }
}

} // verus!
