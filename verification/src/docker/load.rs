//! The definitions that a set of compose files gives.

use crate::docker::command::resolve_command;
use crate::docker::command;
use crate::docker::definitions::{
    ComposeFile, DockerDefinitions, DockerErrorView, DockerModuleError, MountView, NetworkConfig,
    ResolvedMount, RestartPolicy, ServiceConfig, VolumeConfig, VolumeSpec,
};
use crate::docker::environment::{resolve_environment, Binding};
use crate::docker::environment;
use crate::docker::paths;
use crate::docker::volumes::{resolve_restart_policy, resolve_volume_spec};
use crate::docker::volumes;
use crate::text::{char_vec, find_last, same, string_range};
use crate::text;
use vstd::prelude::*;

verus! {

/// What follows the last dot of a file name, where the dot is not its first
/// character.
pub open spec fn extension(name: Seq<char>) -> Option<Seq<char>> {
    let dot = text::last_index(name, '.');
    if dot <= 0 {
        None
    } else {
        Some(name.skip(dot + 1))
    }
}

/// Whether a file in the compose directory is a compose file.
pub open spec fn is_compose_name(name: Seq<char>) -> bool {
    extension(name) == Some("yml"@) || extension(name) == Some("yaml"@)
}

/// Whether a file in the compose directory is a compose file: its name ends in
/// `.yml` or `.yaml`.
pub fn is_compose_file(name: &str) -> (yes: bool)
    ensures
        yes == is_compose_name(name@),
{
    let chars = char_vec(name);
    let total: usize = chars.len();
    proof {
        text::lemma_last_index(chars@, '.');
    }
    match find_last(&chars, '.') {
        Some(dot) => {
            if dot == 0 {
                return false;
            }
            let found = string_range(&chars, dot + 1, total);
            assert(found@ =~= name@.skip(dot + 1));
            same(&found, "yml") || same(&found, "yaml")
        },
        None => false,
    }
}

/// The contents of a list of mounts.
pub open spec fn mount_views(mounts: Seq<ResolvedMount>) -> Seq<MountView> {
    Seq::new(mounts.len(), |i: int| mounts[i]@)
}

/// The mounts that volume entries stand for, up to the first that is refused.
pub open spec fn resolved_volumes(
    entries: Seq<VolumeSpec>,
    compose_dir: Seq<char>,
    home: Option<Seq<char>>,
) -> Result<Seq<MountView>, DockerErrorView>
    decreases entries.len(),
{
    if entries.len() == 0 {
        Ok(Seq::empty())
    } else {
        match resolved_volumes(entries.drop_last(), compose_dir, home) {
            Err(error) => Err(error),
            Ok(before) => match volumes::volume_of(entries.last(), compose_dir, home) {
                Err(error) => Err(error),
                Ok(mount) => Ok(before.push(mount)),
            },
        }
    }
}

proof fn lemma_resolved_volumes_prefix(
    entries: Seq<VolumeSpec>,
    upto: int,
    compose_dir: Seq<char>,
    home: Option<Seq<char>>,
)
    requires
        0 <= upto <= entries.len(),
        resolved_volumes(entries.take(upto), compose_dir, home) is Err,
    ensures
        resolved_volumes(entries, compose_dir, home) == resolved_volumes(
            entries.take(upto),
            compose_dir,
            home,
        ),
    decreases entries.len() - upto,
{
    if upto == entries.len() {
        assert(entries.take(upto) =~= entries);
    } else {
        assert(entries.take(upto + 1).drop_last() =~= entries.take(upto));
        lemma_resolved_volumes_prefix(entries, upto + 1, compose_dir, home);
    }
}

/// Resolves the volume entries of a service, in order.
pub fn resolve_volumes(entries: Vec<VolumeSpec>, compose_dir: &str, home: Option<&str>) -> (result:
    Result<Vec<ResolvedMount>, DockerModuleError>)
    ensures
        match result {
            Ok(mounts) => resolved_volumes(entries@, compose_dir@, paths::opt_str(home)) == Ok::<
                Seq<MountView>,
                DockerErrorView,
            >(mount_views(mounts@)),
            Err(error) => resolved_volumes(entries@, compose_dir@, paths::opt_str(home)) == Err::<
                Seq<MountView>,
                DockerErrorView,
            >(error@),
        },
{
    let ghost all = entries@;
    let mut mounts: Vec<ResolvedMount> = Vec::new();
    assert(mount_views(mounts@) =~= Seq::empty());
    for entry in it: entries.into_iter()
        invariant
            it.seq() == all,
            resolved_volumes(all.take(it.index() as int), compose_dir@, paths::opt_str(home)) == Ok::<
                Seq<MountView>,
                DockerErrorView,
            >(mount_views(mounts@)),
    {
        let ghost i = it.index() as int;
        assert(all.take(i + 1).drop_last() =~= all.take(i));
        assert(all.take(i + 1).last() == entry);
        let ghost before = mount_views(mounts@);
        match resolve_volume_spec(entry, compose_dir, home) {
            Ok(mount) => {
                let ghost found = mount@;
                mounts.push(mount);
                assert(mount_views(mounts@) =~= before.push(found));
            },
            Err(error) => {
                proof {
                    lemma_resolved_volumes_prefix(all, i + 1, compose_dir@, paths::opt_str(home));
                }
                return Err(error);
            },
        }
    }
    assert(all.take(all.len() as int) =~= all);
    Ok(mounts)
}

/// What loading fills in.
#[verifier::ext_equal]
pub struct LoadedView {
    pub mounts: Seq<MountView>,
    pub env: Seq<Seq<char>>,
    pub restart_policy: RestartPolicy,
    pub command_argv: Seq<Seq<char>>,
}

/// The volume entries of a service.
pub open spec fn volume_entries(config: ServiceConfig) -> Seq<VolumeSpec> {
    match config.volumes {
        Some(entries) => entries@,
        None => Seq::empty(),
    }
}

/// What loading a service fills in, or the first thing that is wrong with it:
/// its volumes, then its restart policy, then its command.
pub open spec fn loaded(
    config: ServiceConfig,
    compose_dir: Seq<char>,
    home: Option<Seq<char>>,
    host: Seq<Binding>,
) -> Result<LoadedView, DockerErrorView> {
    match resolved_volumes(volume_entries(config), compose_dir, home) {
        Err(error) => Err(error),
        Ok(mounts) => match volumes::restart_policy_of(text::opt_text(config.restart)) {
            Err(error) => Err(error),
            Ok(restart_policy) => match command::command_argv(text::opt_text(config.command)) {
                Err(error) => Err(error),
                Ok(argv) => Ok(
                    LoadedView {
                        mounts,
                        env: environment::rendered(
                            environment::service_bindings(
                                text::texts(config.env_file_contents@),
                                config.environment,
                                host,
                            ),
                        ),
                        restart_policy,
                        command_argv: argv,
                    },
                ),
            },
        },
    }
}

/// Whether `after` is `before` with the loaded parts filled in.
pub open spec fn filled_in(before: ServiceConfig, after: ServiceConfig, parts: LoadedView) -> bool {
    &&& mount_views(after.mounts@) == parts.mounts
    &&& text::texts(after.env@) == parts.env
    &&& after.restart_policy == Some(parts.restart_policy)
    &&& text::texts(after.command_argv@) == parts.command_argv
    &&& after.volumes is None
    &&& after.image == before.image
    &&& after.ports == before.ports
    &&& after.networks == before.networks
    &&& after.environment == before.environment
    &&& after.env_file == before.env_file
    &&& after.env_file_contents == before.env_file_contents
    &&& after.container_name == before.container_name
    &&& after.command == before.command
    &&& after.user == before.user
    &&& after.depends_on == before.depends_on
    &&& after.restart == before.restart
}

/// Loads a service: resolves its volumes, its environment, its restart policy
/// and its command, relative to the directory of its compose file. Whatever is
/// wrong is found here, before any container exists.
pub fn load_service(
    config: ServiceConfig,
    compose_dir: &str,
    home: Option<&str>,
    host: &Vec<(String, String)>,
) -> (result: Result<ServiceConfig, DockerModuleError>)
    ensures
        match result {
            Ok(after) => loaded(config, compose_dir@, paths::opt_str(home), text::text_pairs(host@)) matches Ok(
                parts,
            ) && filled_in(config, after, parts),
            Err(error) => loaded(config, compose_dir@, paths::opt_str(home), text::text_pairs(host@)) == Err::<
                LoadedView,
                DockerErrorView,
            >(error@),
        },
{
    let ghost before = config;
    let mut config = config;
    let entries: Vec<VolumeSpec> = match config.volumes.take() {
        Some(entries) => entries,
        None => Vec::new(),
    };
    assert(entries@ =~= volume_entries(before));
    match resolve_volumes(entries, compose_dir, home) {
        Ok(mounts) => {
            config.mounts = mounts;
        },
        Err(error) => {
            return Err(error);
        },
    }
    config.env = resolve_environment(&config.environment, &config.env_file_contents, host);
    let restart = match &config.restart {
        Some(text) => Some(text.as_str()),
        None => None,
    };
    assert(paths::opt_str(restart) == text::opt_text(before.restart));
    match resolve_restart_policy(restart) {
        Ok(policy) => {
            config.restart_policy = Some(policy);
        },
        Err(error) => {
            return Err(error);
        },
    }
    let command = match &config.command {
        Some(text) => Some(text.as_str()),
        None => None,
    };
    assert(paths::opt_str(command) == text::opt_text(before.command));
    match resolve_command(command) {
        Ok(argv) => {
            config.command_argv = argv;
        },
        Err(error) => {
            return Err(error);
        },
    }
    Ok(config)
}

/// A compose file and the directory that it stands in.
pub struct ComposeSource {
    pub compose_dir: String,
    pub file: ComposeFile,
}

/// The services of a compose file.
pub open spec fn file_services(source: ComposeSource) -> Seq<(Seq<char>, (String, ServiceConfig))> {
    match source.file.services {
        Some(services) => Seq::new(
            services@.len(),
            |i: int| (source.compose_dir@, services@[i]),
        ),
        None => Seq::empty(),
    }
}

/// The networks of a compose file.
pub open spec fn file_networks(source: ComposeSource) -> Seq<(String, Option<NetworkConfig>)> {
    match source.file.networks {
        Some(networks) => networks@,
        None => Seq::empty(),
    }
}

/// The volumes of a compose file.
pub open spec fn file_volumes(source: ComposeSource) -> Seq<(String, Option<VolumeConfig>)> {
    match source.file.volumes {
        Some(volumes) => volumes@,
        None => Seq::empty(),
    }
}

/// The services of all files, in order, each with the directory of its file.
pub open spec fn all_services(sources: Seq<ComposeSource>) -> Seq<
    (Seq<char>, (String, ServiceConfig)),
>
    decreases sources.len(),
{
    if sources.len() == 0 {
        Seq::empty()
    } else {
        all_services(sources.drop_last()) + file_services(sources.last())
    }
}

/// The networks of all files, in order.
pub open spec fn all_networks(sources: Seq<ComposeSource>) -> Seq<(String, Option<NetworkConfig>)>
    decreases sources.len(),
{
    if sources.len() == 0 {
        Seq::empty()
    } else {
        all_networks(sources.drop_last()) + file_networks(sources.last())
    }
}

/// The volumes of all files, in order.
pub open spec fn all_volumes(sources: Seq<ComposeSource>) -> Seq<(String, Option<VolumeConfig>)>
    decreases sources.len(),
{
    if sources.len() == 0 {
        Seq::empty()
    } else {
        all_volumes(sources.drop_last()) + file_volumes(sources.last())
    }
}

/// What loading the `k`th of the declared services gives.
pub open spec fn loaded_at(
    declared: Seq<(Seq<char>, (String, ServiceConfig))>,
    k: int,
    home: Option<Seq<char>>,
    host: Seq<Binding>,
) -> Result<LoadedView, DockerErrorView> {
    loaded(declared[k].1.1, declared[k].0, home, host)
}

/// Whether the services are the first declared ones, loaded.
pub open spec fn services_loaded(
    declared: Seq<(Seq<char>, (String, ServiceConfig))>,
    services: Seq<(String, ServiceConfig)>,
    home: Option<Seq<char>>,
    host: Seq<Binding>,
) -> bool {
    &&& services.len() <= declared.len()
    &&& forall|k: int|
        0 <= k < services.len() ==> {
            &&& (#[trigger] services[k]).0@ == declared[k].1.0@
            &&& loaded_at(declared, k, home, host) matches Ok(parts) && filled_in(
                declared[k].1.1,
                services[k].1,
                parts,
            )
        }
}

proof fn lemma_all_services_prefix(sources: Seq<ComposeSource>, upto: int)
    requires
        0 <= upto <= sources.len(),
    ensures
        all_services(sources.take(upto)).len() <= all_services(sources).len(),
        forall|k: int|
            0 <= k < all_services(sources.take(upto)).len() ==> #[trigger] all_services(sources)[k]
                == all_services(sources.take(upto))[k],
    decreases sources.len() - upto,
{
    if upto == sources.len() {
        assert(sources.take(upto) =~= sources);
    } else {
        assert(sources.take(upto + 1).drop_last() =~= sources.take(upto));
        lemma_all_services_prefix(sources, upto + 1);
        assert forall|k: int|
            0 <= k < all_services(sources.take(upto)).len() implies #[trigger] all_services(
            sources,
        )[k] == all_services(sources.take(upto))[k] by {
            assert(all_services(sources)[k] == all_services(sources.take(upto + 1))[k]);
        }
    }
}

/// Collects what the compose files declare: the services, loaded, the networks
/// and the volumes, in the order of the files. The first service that cannot be
/// loaded stops it.
pub fn find_docker_definitions(
    sources: Vec<ComposeSource>,
    home: Option<&str>,
    host: &Vec<(String, String)>,
) -> (result: Result<DockerDefinitions, DockerModuleError>)
    ensures
        match result {
            Ok(definitions) => {
                &&& definitions.services@.len() == all_services(sources@).len()
                &&& services_loaded(
                    all_services(sources@),
                    definitions.services@,
                    paths::opt_str(home),
                    text::text_pairs(host@),
                )
                &&& definitions.networks@ == all_networks(sources@)
                &&& definitions.volumes@ == all_volumes(sources@)
            },
            Err(error) => exists|k: int|
                {
                    &&& 0 <= k < all_services(sources@).len()
                    &&& #[trigger] loaded_at(
                        all_services(sources@),
                        k,
                        paths::opt_str(home),
                        text::text_pairs(host@),
                    ) == Err::<LoadedView, DockerErrorView>(error@)
                    &&& forall|j: int|
                        0 <= j < k ==> #[trigger] loaded_at(
                            all_services(sources@),
                            j,
                            paths::opt_str(home),
                            text::text_pairs(host@),
                        ) is Ok
                },
        },
{
    let ghost all = sources@;
    let ghost declared = all_services(all);
    let ghost names = text::text_pairs(host@);
    let mut definitions = DockerDefinitions::default();
    assert(definitions.networks@ =~= all_networks(all.take(0)));
    assert(definitions.volumes@ =~= all_volumes(all.take(0)));
    for source in it: sources.into_iter()
        invariant
            all == sources@,
            it.seq() == all,
            declared == all_services(all),
            names == text::text_pairs(host@),
            definitions.services@.len() == all_services(all.take(it.index() as int)).len(),
            services_loaded(declared, definitions.services@, paths::opt_str(home), names),
            definitions.networks@ == all_networks(all.take(it.index() as int)),
            definitions.volumes@ == all_volumes(all.take(it.index() as int)),
    {
        let ghost i = it.index() as int;
        assert(all.take(i + 1).drop_last() =~= all.take(i));
        assert(all.take(i + 1).last() == source);
        let ghost done = all_services(all.take(i)).len() as int;
        let ghost own = file_services(source);
        proof {
            lemma_all_services_prefix(all, i + 1);
            assert forall|k: int| 0 <= k < own.len() implies #[trigger] own[k] == declared[done
                + k] by {
                assert(all_services(all.take(i + 1))[done + k] == own[k]);
            }
        }
        let ComposeSource { compose_dir, file } = source;
        let ComposeFile { services, networks, volumes } = file;
        if let Some(services) = services {
            let ghost listed = services@;
            for service in inner: services.into_iter()
                invariant
                    all == sources@,
                    inner.seq() == listed,
                    own == Seq::new(listed.len(), |k: int| (compose_dir@, listed[k])),
                    names == text::text_pairs(host@),
                    declared == all_services(all),
                    forall|k: int|
                        0 <= k < own.len() ==> #[trigger] own[k] == declared[done + k],
                    0 <= done,
                    done + own.len() <= declared.len(),
                    definitions.services@.len() == done + inner.index(),
                    services_loaded(declared, definitions.services@, paths::opt_str(home), names),
                    definitions.networks@ == all_networks(all.take(i)),
                    definitions.volumes@ == all_volumes(all.take(i)),
            {
                let ghost k = done + inner.index() as int;
                assert(own[inner.index() as int] == (compose_dir@, service));
                assert(declared[k] == (compose_dir@, service));
                let (name, config) = service;
                match load_service(config, &compose_dir, home, host) {
                    Ok(after) => {
                        definitions.services.push((name, after));
                    },
                    Err(error) => {
                        assert(loaded_at(declared, k, paths::opt_str(home), names) == Err::<
                            LoadedView,
                            DockerErrorView,
                        >(error@));
                        assert forall|j: int| 0 <= j < k implies #[trigger] loaded_at(
                            declared,
                            j,
                            paths::opt_str(home),
                            names,
                        ) is Ok by {
                            assert(definitions.services@[j].0@ == declared[j].1.0@);
                        }
                        return Err(error);
                    },
                }
            }
        }
        if let Some(mut networks) = networks {
            definitions.networks.append(&mut networks);
        }
        if let Some(mut volumes) = volumes {
            definitions.volumes.append(&mut volumes);
        }
        assert(definitions.networks@ =~= all_networks(all.take(i + 1)));
        assert(definitions.volumes@ =~= all_volumes(all.take(i + 1)));
    }
    assert(all.take(all.len() as int) =~= all);
    Ok(definitions)
}

// ---------------------------------------------------------------------------
// Laws of loading
// ---------------------------------------------------------------------------

/// A file holds definitions exactly where its name ends in `.yml` or `.yaml` with
/// something before it.
pub proof fn compose_files_are_told_by_their_ending(name: Seq<char>)
    ensures
        is_compose_name(name) <==> exists|stem: Seq<char>|
            #![trigger stem.len()]
            stem.len() > 0 && (name == stem + ".yml"@ || name == stem + ".yaml"@),
{
    reveal_strlit("yml");
    reveal_strlit("yaml");
    reveal_strlit(".yml");
    reveal_strlit(".yaml");
    let dot = text::last_index(name, '.');
    text::lemma_last_index(name, '.');
    if is_compose_name(name) {
        let stem = name.take(dot);
        assert(name =~= stem + seq!['.'] + name.skip(dot + 1));
        assert(seq!['.'] + "yml"@ =~= ".yml"@);
        assert(seq!['.'] + "yaml"@ =~= ".yaml"@);
        assert(stem + seq!['.'] + "yml"@ =~= stem + ".yml"@);
        assert(stem + seq!['.'] + "yaml"@ =~= stem + ".yaml"@);
        assert(stem.len() > 0);
    }
    if exists|stem: Seq<char>|
        #![trigger stem.len()]
        stem.len() > 0 && (name == stem + ".yml"@ || name == stem + ".yaml"@) {
        let stem = choose|stem: Seq<char>|
            #![trigger stem.len()]
            stem.len() > 0 && (name == stem + ".yml"@ || name == stem + ".yaml"@);
        let at = stem.len() as int;
        assert(name[at] == '.');
        assert forall|j: int| at < j < name.len() implies name[j] != '.' by {
            if name == stem + ".yml"@ {
                assert(name[j] == ".yml"@[j - at]);
            } else {
                assert(name[j] == ".yaml"@[j - at]);
            }
        }
        assert(dot == at);
        if name == stem + ".yml"@ {
            assert(name.skip(at + 1) =~= "yml"@);
        } else {
            assert(name.skip(at + 1) =~= "yaml"@);
        }
    }
}

/// Every volume entry of a service becomes its mount, in order; the first that is
/// refused refuses the service.
pub proof fn every_entry_becomes_its_mount(
    entries: Seq<VolumeSpec>,
    compose_dir: Seq<char>,
    home: Option<Seq<char>>,
)
    ensures
        resolved_volumes(entries, compose_dir, home) matches Ok(mounts) ==> mounts.len()
            == entries.len() && forall|i: int|
            0 <= i < entries.len() ==> volumes::volume_of(entries[i], compose_dir, home) == Ok::<
                MountView,
                DockerErrorView,
            >(#[trigger] mounts[i]),
        resolved_volumes(entries, compose_dir, home) matches Err(error) ==> exists|k: int|
            0 <= k < entries.len() && volumes::volume_of(#[trigger] entries[k], compose_dir, home)
                == Err::<MountView, DockerErrorView>(error),
    decreases entries.len(),
{
    if entries.len() > 0 {
        let init = entries.drop_last();
        every_entry_becomes_its_mount(init, compose_dir, home);
        if let Err(error) = resolved_volumes(init, compose_dir, home) {
            let k = choose|k: int|
                0 <= k < init.len() && volumes::volume_of(#[trigger] init[k], compose_dir, home)
                    == Err::<MountView, DockerErrorView>(error);
            assert(entries[k] == init[k]);
        } else if let Err(error) = resolved_volumes(entries, compose_dir, home) {
            assert(entries[entries.len() - 1] == entries.last());
        }
    }
}

/// An entry is read by its form.
pub proof fn entries_are_read_by_their_form(
    short: String,
    long: crate::docker::definitions::LongVolumeSpec,
    compose_dir: Seq<char>,
    home: Option<Seq<char>>,
)
    ensures
        volumes::volume_of(VolumeSpec::Short(short), compose_dir, home) == volumes::short_volume(
            short@,
            compose_dir,
            home,
        ),
        volumes::volume_of(VolumeSpec::Long(long), compose_dir, home) == volumes::long_volume(
            long@,
            compose_dir,
            home,
        ),
        long@.mount_type == long.mount_type@,
        long@.target == long.target@,
        long@.read_only == long.read_only,
        long.source matches Some(source) ==> long@.source == Some(source@),
        long.source is None ==> long@.source is None,
{
}

/// A service is loaded where its volumes, its restart policy and its command are
/// all in order, and then holds what these say; nothing else refuses it.
pub proof fn service_is_loaded_where_its_parts_are_in_order(
    config: ServiceConfig,
    compose_dir: Seq<char>,
    home: Option<Seq<char>>,
    host: Seq<Binding>,
)
    ensures
        loaded(config, compose_dir, home, host) is Ok <==> {
            &&& (config.volumes is Some ==> resolved_volumes(
                config.volumes->0@,
                compose_dir,
                home,
            ) is Ok)
            &&& volumes::restart_policy_of(text::opt_text(config.restart)) is Ok
            &&& command::command_argv(text::opt_text(config.command)) is Ok
        },
        loaded(config, compose_dir, home, host) matches Ok(parts) ==> {
            &&& config.volumes is None ==> parts.mounts.len() == 0
            &&& config.volumes is Some ==> resolved_volumes(config.volumes->0@, compose_dir, home)
                == Ok::<Seq<MountView>, DockerErrorView>(parts.mounts)
            &&& volumes::restart_policy_of(text::opt_text(config.restart)) == Ok::<
                crate::docker::definitions::RestartPolicy,
                DockerErrorView,
            >(parts.restart_policy)
            &&& command::command_argv(text::opt_text(config.command)) == Ok::<
                Seq<Seq<char>>,
                DockerErrorView,
            >(parts.command_argv)
            &&& parts.env == environment::rendered(
                environment::service_bindings(
                    text::texts(config.env_file_contents@),
                    config.environment,
                    host,
                ),
            )
        },
{
}

/// Loading a service fills in what was resolved and leaves the rest as it was.
pub proof fn loading_leaves_the_rest_as_it_was(
    before: ServiceConfig,
    after: ServiceConfig,
    parts: LoadedView,
)
    requires
        filled_in(before, after, parts),
    ensures
        after.mounts@.len() == parts.mounts.len(),
        forall|i: int|
            0 <= i < parts.mounts.len() ==> (#[trigger] after.mounts@[i])@ == parts.mounts[i],
        after.env@.len() == parts.env.len(),
        forall|i: int| 0 <= i < parts.env.len() ==> (#[trigger] after.env@[i])@ == parts.env[i],
        after.command_argv@.len() == parts.command_argv.len(),
        forall|i: int|
            0 <= i < parts.command_argv.len() ==> (#[trigger] after.command_argv@[i])@
                == parts.command_argv[i],
        after.restart_policy == Some(parts.restart_policy),
        after.image == before.image,
        after.ports == before.ports,
        after.networks == before.networks,
        after.user == before.user,
        after.depends_on == before.depends_on,
{
    assert(mount_views(after.mounts@).len() == after.mounts@.len());
    assert forall|i: int| 0 <= i < parts.mounts.len() implies (#[trigger] after.mounts@[i])@
        == parts.mounts[i] by {
        assert(mount_views(after.mounts@)[i] == after.mounts@[i]@);
    }
    assert(text::texts(after.env@).len() == after.env@.len());
    assert forall|i: int| 0 <= i < parts.env.len() implies (#[trigger] after.env@[i])@
        == parts.env[i] by {
        assert(text::texts(after.env@)[i] == after.env@[i]@);
    }
    assert(text::texts(after.command_argv@).len() == after.command_argv@.len());
    assert forall|i: int| 0 <= i < parts.command_argv.len() implies (
    #[trigger] after.command_argv@[i])@ == parts.command_argv[i] by {
        assert(text::texts(after.command_argv@)[i] == after.command_argv@[i]@);
    }
}

/// The definitions of several files add up in the order of the files, and a file
/// gives all that it declares, its services with its own directory.
pub proof fn files_add_up_in_order(
    first: Seq<ComposeSource>,
    second: Seq<ComposeSource>,
    source: ComposeSource,
)
    ensures
        all_services(first + second) == all_services(first) + all_services(second),
        all_networks(first + second) == all_networks(first) + all_networks(second),
        all_volumes(first + second) == all_volumes(first) + all_volumes(second),
        source.file.services is None ==> all_services(seq![source]).len() == 0,
        source.file.networks is None ==> all_networks(seq![source]).len() == 0,
        source.file.volumes is None ==> all_volumes(seq![source]).len() == 0,
        source.file.services matches Some(services) ==> all_services(seq![source]).len()
            == services@.len() && forall|i: int|
            0 <= i < services@.len() ==> #[trigger] all_services(seq![source])[i] == (
                source.compose_dir@,
                services@[i],
            ),
        source.file.networks matches Some(networks) ==> all_networks(seq![source]) == networks@,
        source.file.volumes matches Some(volumes) ==> all_volumes(seq![source]) == volumes@,
    decreases second.len(),
{
    let one = seq![source];
    assert(one.drop_last() =~= Seq::empty());
    assert(all_services(one.drop_last()) =~= Seq::empty());
    assert(all_networks(one.drop_last()) =~= Seq::empty());
    assert(all_volumes(one.drop_last()) =~= Seq::empty());
    assert(all_services(one) =~= file_services(source));
    assert(all_networks(one) =~= file_networks(source));
    assert(all_volumes(one) =~= file_volumes(source));
    if second.len() == 0 {
        assert(first + second =~= first);
        assert(all_services(first) + all_services(second) =~= all_services(first));
        assert(all_networks(first) + all_networks(second) =~= all_networks(first));
        assert(all_volumes(first) + all_volumes(second) =~= all_volumes(first));
    } else {
        let init = second.drop_last();
        assert((first + second).drop_last() =~= first + init);
        files_add_up_in_order(first, init, source);
        assert(all_services(first + second) =~= all_services(first) + all_services(second));
        assert(all_networks(first + second) =~= all_networks(first) + all_networks(second));
        assert(all_volumes(first + second) =~= all_volumes(first) + all_volumes(second));
    }
}

/// Services that are loaded keep their names, and each holds what loading its
/// own declaration in its own directory gave.
pub proof fn loaded_services_keep_their_names(
    declared: Seq<(Seq<char>, (String, ServiceConfig))>,
    services: Seq<(String, ServiceConfig)>,
    home: Option<Seq<char>>,
    host: Seq<Binding>,
    k: int,
)
    requires
        services_loaded(declared, services, home, host),
        0 <= k < services.len(),
    ensures
        services[k].0@ == declared[k].1.0@,
        loaded(declared[k].1.1, declared[k].0, home, host) is Ok,
        filled_in(
            declared[k].1.1,
            services[k].1,
            loaded(declared[k].1.1, declared[k].0, home, host)->Ok_0,
        ),
{
    assert(services[k].0@ == declared[k].1.0@);
    assert(loaded_at(declared, k, home, host) is Ok);
}

} // verus!
