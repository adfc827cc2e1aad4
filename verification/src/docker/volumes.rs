//! Mounts and restart policies.

use crate::docker::definitions::{
    DockerErrorView, DockerModuleError, LongVolumeSpec, MountType, MountView, ResolvedMount,
    RestartPolicy, RestartPolicyNameEnum, VolumeSpec,
};
use crate::docker::paths::{is_host_path, resolve_host_path};
use crate::docker::paths;
use crate::numbers::parse_i64;
use crate::numbers;
use crate::text::{cat3, cat5, clone_opt, has_char, same, split_text, splitn_text, without_prefix};
use crate::text;
use vstd::prelude::*;

verus! {

/// The tag to pull where the image reference carries neither a tag nor a
/// digest.
pub open spec fn pull_tag(image_reference: Seq<char>) -> Option<Seq<char>> {
    let last_segment = text::split(image_reference, '/').last();
    if last_segment.contains(':') || last_segment.contains('@') {
        None
    } else {
        Some("latest"@)
    }
}

/// The tag to pull: `latest`, unless the reference carries a tag or a digest.
pub fn resolve_pull_tag(image_reference: &str) -> (tag: Option<String>)
    ensures
        text::opt_text(tag) == pull_tag(image_reference@),
{
    let segments = split_text(image_reference, '/');
    let last_segment = &segments[segments.len() - 1];
    assert(last_segment@ == text::split(image_reference@, '/').last());
    if has_char(last_segment, ':') || has_char(last_segment, '@') {
        None
    } else {
        Some("latest".to_owned())
    }
}

/// The restart policy that a `restart` key stands for.
pub open spec fn restart_policy_of(restart: Option<Seq<char>>) -> Result<
    RestartPolicy,
    DockerErrorView,
> {
    match restart {
        None => Ok(policy(RestartPolicyNameEnum::NO, None)),
        Some(text) => if text == "no"@ {
            Ok(policy(RestartPolicyNameEnum::NO, None))
        } else if text == "always"@ {
            Ok(policy(RestartPolicyNameEnum::ALWAYS, None))
        } else if text == "unless-stopped"@ {
            Ok(policy(RestartPolicyNameEnum::UNLESS_STOPPED, None))
        } else if text == "on-failure"@ {
            Ok(policy(RestartPolicyNameEnum::ON_FAILURE, None))
        } else {
            match text::strip_prefix(text, "on-failure:"@) {
                None => Err(DockerErrorView::InvalidRestartPolicy(text)),
                Some(count) => match numbers::parse_int(count, i64::MIN as int, i64::MAX as int) {
                    Ok(retries) => if retries < 0 {
                        Err(DockerErrorView::InvalidRestartPolicy(text))
                    } else {
                        Ok(policy(RestartPolicyNameEnum::ON_FAILURE, Some(retries as i64)))
                    },
                    Err(_) => Err(DockerErrorView::InvalidRestartPolicy(text)),
                },
            }
        },
    }
}

/// A policy with the given name and bound.
pub open spec fn policy(
    name: RestartPolicyNameEnum,
    maximum_retry_count: Option<i64>,
) -> RestartPolicy {
    RestartPolicy { name: Some(name), maximum_retry_count }
}

/// Maps the compose `restart` key onto a restart policy. An absent key means
/// `no`.
pub fn resolve_restart_policy(restart: Option<&str>) -> (result: Result<
    RestartPolicy,
    DockerModuleError,
>)
    ensures
        match result {
            Ok(found) => restart_policy_of(paths::opt_str(restart)) == Ok::<
                RestartPolicy,
                DockerErrorView,
            >(found),
            Err(error) => restart_policy_of(paths::opt_str(restart)) == Err::<
                RestartPolicy,
                DockerErrorView,
            >(error@),
        },
{
    let (name, maximum_retry_count) = match restart {
        None => (RestartPolicyNameEnum::NO, None),
        Some(text) => {
            if same(text, "no") {
                (RestartPolicyNameEnum::NO, None)
            } else if same(text, "always") {
                (RestartPolicyNameEnum::ALWAYS, None)
            } else if same(text, "unless-stopped") {
                (RestartPolicyNameEnum::UNLESS_STOPPED, None)
            } else if same(text, "on-failure") {
                (RestartPolicyNameEnum::ON_FAILURE, None)
            } else {
                match without_prefix(text, "on-failure:") {
                    Some(count) => match parse_i64(&count) {
                        Ok(retries) => {
                            if retries < 0 {
                                return Err(
                                    DockerModuleError::InvalidRestartPolicy(text.to_owned()),
                                );
                            }
                            (RestartPolicyNameEnum::ON_FAILURE, Some(retries))
                        },
                        Err(_) => {
                            return Err(DockerModuleError::InvalidRestartPolicy(text.to_owned()));
                        },
                    },
                    None => {
                        return Err(DockerModuleError::InvalidRestartPolicy(text.to_owned()));
                    },
                }
            }
        },
    };
    Ok(RestartPolicy { name: Some(name), maximum_retry_count })
}

/// Whether the mount options ask for a read-only mount: the last of `ro` and
/// `rw` counts, and any other option is ignored.
pub open spec fn read_only_options(options: Seq<Seq<char>>) -> bool
    decreases options.len(),
{
    if options.len() == 0 {
        false
    } else if options.last() == "ro"@ {
        true
    } else if options.last() == "rw"@ {
        false
    } else {
        read_only_options(options.drop_last())
    }
}

/// The mount that a short volume entry, `[source:]target[:options]`, stands
/// for.
pub open spec fn short_volume(
    entry: Seq<char>,
    compose_dir: Seq<char>,
    home: Option<Seq<char>>,
) -> Result<MountView, DockerErrorView> {
    let parts = text::splitn(entry, ':', 3);
    let read_only = parts.len() == 3 && read_only_options(text::split(parts[2], ','));
    if parts[0].len() == 0 || (parts.len() > 1 && parts[1].len() == 0) {
        Err(DockerErrorView::InvalidVolumeSpec(entry))
    } else if parts.len() == 1 {
        Ok(
            MountView {
                mount_type: MountType::VOLUME,
                source: None,
                target: parts[0],
                read_only,
            },
        )
    } else if paths::names_host_path(parts[0]) {
        match paths::host_path(parts[0], compose_dir, home) {
            Ok(path) => Ok(
                MountView {
                    mount_type: MountType::BIND,
                    source: Some(path),
                    target: parts[1],
                    read_only,
                },
            ),
            Err(error) => Err(error),
        }
    } else {
        Ok(
            MountView {
                mount_type: MountType::VOLUME,
                source: Some(parts[0]),
                target: parts[1],
                read_only,
            },
        )
    }
}

/// Whether the mount options ask for a read-only mount.
fn wants_read_only(options: &str) -> (read_only: bool)
    ensures
        read_only == read_only_options(text::split(options@, ',')),
{
    let pieces = split_text(options, ',');
    let ghost all = text::texts(pieces@);
    let mut read_only = false;
    let mut i: usize = 0;
    while i < pieces.len()
        invariant
            i <= pieces@.len(),
            all == text::texts(pieces@),
            read_only == read_only_options(all.take(i as int)),
        decreases pieces@.len() - i,
    {
        assert(all.take(i + 1).drop_last() =~= all.take(i as int));
        assert(all.take(i + 1).last() == pieces@[i as int]@);
        proof {
            reveal_strlit("ro");
            reveal_strlit("rw");
            assert("ro"@[1] != "rw"@[1]);
        }
        if same(&pieces[i], "ro") {
            read_only = true;
        } else if same(&pieces[i], "rw") {
            read_only = false;
        }
        i += 1;
    }
    assert(all.take(i as int) =~= all);
    read_only
}

/// Resolves a short volume entry, `[source:]target[:options]`. A source that is
/// a path on the host becomes a bind mount, any other one a named volume.
pub fn resolve_short_volume(
    volume_spec: &str,
    compose_dir: &str,
    home: Option<&str>,
) -> (result: Result<ResolvedMount, DockerModuleError>)
    ensures
        match result {
            Ok(mount) => short_volume(volume_spec@, compose_dir@, paths::opt_str(home)) == Ok::<
                MountView,
                DockerErrorView,
            >(mount@),
            Err(error) => short_volume(volume_spec@, compose_dir@, paths::opt_str(home)) == Err::<
                MountView,
                DockerErrorView,
            >(error@),
        },
{
    let parts = splitn_text(volume_spec, ':', 3);
    let ghost pieces = text::splitn(volume_spec@, ':', 3);
    assert(forall|i: int| 0 <= i < parts@.len() ==> pieces[i] == (#[trigger] parts@[i])@);
    assert(pieces.len() == parts@.len());
    let first = parts[0].as_str();
    if first.is_empty() || (parts.len() > 1 && parts[1].as_str().is_empty()) {
        return Err(DockerModuleError::InvalidVolumeSpec(volume_spec.to_owned()));
    }
    let read_only = if parts.len() == 3 {
        wants_read_only(&parts[2])
    } else {
        false
    };
    if parts.len() == 1 {
        return Ok(
            ResolvedMount {
                mount_type: MountType::VOLUME,
                source: None,
                target: first.to_owned(),
                read_only,
            },
        );
    }
    let target = parts[1].clone();
    if is_host_path(first) {
        match resolve_host_path(first, compose_dir, home) {
            Ok(path) => Ok(
                ResolvedMount {
                    mount_type: MountType::BIND,
                    source: Some(path),
                    target,
                    read_only,
                },
            ),
            Err(error) => Err(error),
        }
    } else {
        Ok(
            ResolvedMount {
                mount_type: MountType::VOLUME,
                source: Some(first.to_owned()),
                target,
                read_only,
            },
        )
    }
}

/// The contents of a long volume entry.
#[verifier::ext_equal]
pub struct LongVolumeView {
    pub mount_type: Seq<char>,
    pub source: Option<Seq<char>>,
    pub target: Seq<char>,
    pub read_only: bool,
}

impl View for LongVolumeSpec {
    type V = LongVolumeView;

    open spec fn view(&self) -> LongVolumeView {
        LongVolumeView {
            mount_type: self.mount_type@,
            source: text::opt_text(self.source),
            target: self.target@,
            read_only: self.read_only,
        }
    }
}

/// The kind of mount that a long volume entry names.
pub open spec fn mount_type_of(name: Seq<char>) -> Option<MountType> {
    if name == "bind"@ {
        Some(MountType::BIND)
    } else if name == "volume"@ {
        Some(MountType::VOLUME)
    } else if name == "tmpfs"@ {
        Some(MountType::TMPFS)
    } else if name == "npipe"@ {
        Some(MountType::NPIPE)
    } else {
        None
    }
}

/// The mount that a long volume entry stands for.
pub open spec fn long_volume(
    entry: LongVolumeView,
    compose_dir: Seq<char>,
    home: Option<Seq<char>>,
) -> Result<MountView, DockerErrorView> {
    match mount_type_of(entry.mount_type) {
        None => Err(
            DockerErrorView::InvalidVolumeSpec(
                "unsupported mount type ["@ + entry.mount_type + "] for target ["@ + entry.target
                    + "]"@,
            ),
        ),
        Some(MountType::TMPFS) => Ok(
            MountView {
                mount_type: MountType::TMPFS,
                source: None,
                target: entry.target,
                read_only: entry.read_only,
            },
        ),
        Some(MountType::BIND) => match entry.source {
            None => Err(
                DockerErrorView::InvalidVolumeSpec(
                    "bind mount for target ["@ + entry.target + "] is missing a source"@,
                ),
            ),
            Some(source) => match paths::host_path(source, compose_dir, home) {
                Ok(path) => Ok(
                    MountView {
                        mount_type: MountType::BIND,
                        source: Some(path),
                        target: entry.target,
                        read_only: entry.read_only,
                    },
                ),
                Err(error) => Err(error),
            },
        },
        Some(mount_type) => Ok(
            MountView {
                mount_type,
                source: entry.source,
                target: entry.target,
                read_only: entry.read_only,
            },
        ),
    }
}

/// The kind of mount that a long volume entry names.
fn parse_mount_type(name: &str) -> (found: Option<MountType>)
    ensures
        found == mount_type_of(name@),
{
    if same(name, "bind") {
        Some(MountType::BIND)
    } else if same(name, "volume") {
        Some(MountType::VOLUME)
    } else if same(name, "tmpfs") {
        Some(MountType::TMPFS)
    } else if same(name, "npipe") {
        Some(MountType::NPIPE)
    } else {
        None
    }
}

/// Resolves a long volume entry. A bind mount needs a source, which is resolved
/// to a path on the host; a tmpfs has none.
pub fn resolve_long_volume(
    volume_spec: LongVolumeSpec,
    compose_dir: &str,
    home: Option<&str>,
) -> (result: Result<ResolvedMount, DockerModuleError>)
    ensures
        match result {
            Ok(mount) => long_volume(volume_spec@, compose_dir@, paths::opt_str(home)) == Ok::<
                MountView,
                DockerErrorView,
            >(mount@),
            Err(error) => long_volume(volume_spec@, compose_dir@, paths::opt_str(home)) == Err::<
                MountView,
                DockerErrorView,
            >(error@),
        },
{
    let mount_type = match parse_mount_type(&volume_spec.mount_type) {
        Some(mount_type) => mount_type,
        None => {
            return Err(
                DockerModuleError::InvalidVolumeSpec(
                    cat5(
                        "unsupported mount type [",
                        &volume_spec.mount_type,
                        "] for target [",
                        &volume_spec.target,
                        "]",
                    ),
                ),
            );
        },
    };
    let source = match mount_type {
        MountType::TMPFS => None,
        MountType::BIND => match &volume_spec.source {
            Some(source) => match resolve_host_path(source, compose_dir, home) {
                Ok(path) => Some(path),
                Err(error) => {
                    return Err(error);
                },
            },
            None => {
                return Err(
                    DockerModuleError::InvalidVolumeSpec(
                        cat3(
                            "bind mount for target [",
                            &volume_spec.target,
                            "] is missing a source",
                        ),
                    ),
                );
            },
        },
        _ => clone_opt(&volume_spec.source),
    };
    Ok(
        ResolvedMount {
            mount_type,
            source,
            target: volume_spec.target,
            read_only: volume_spec.read_only,
        },
    )
}

/// The mount that a volume entry stands for.
pub open spec fn volume_of(
    entry: VolumeSpec,
    compose_dir: Seq<char>,
    home: Option<Seq<char>>,
) -> Result<MountView, DockerErrorView> {
    match entry {
        VolumeSpec::Short(text) => short_volume(text@, compose_dir, home),
        VolumeSpec::Long(long) => long_volume(long@, compose_dir, home),
    }
}

/// Resolves a volume entry of either form.
pub fn resolve_volume_spec(
    volume_spec: VolumeSpec,
    compose_dir: &str,
    home: Option<&str>,
) -> (result: Result<ResolvedMount, DockerModuleError>)
    ensures
        match result {
            Ok(mount) => volume_of(volume_spec, compose_dir@, paths::opt_str(home)) == Ok::<
                MountView,
                DockerErrorView,
            >(mount@),
            Err(error) => volume_of(volume_spec, compose_dir@, paths::opt_str(home)) == Err::<
                MountView,
                DockerErrorView,
            >(error@),
        },
{
    match volume_spec {
        VolumeSpec::Short(short_spec) => resolve_short_volume(&short_spec, compose_dir, home),
        VolumeSpec::Long(long_spec) => resolve_long_volume(long_spec, compose_dir, home),
    }
}

/// The options of a bind mount.
#[derive(Clone, Copy, PartialEq, Eq, Debug, Structural)]
pub struct MountBindOptions {
    pub create_mountpoint: Option<bool>,
}

/// A mount as the daemon takes it.
pub struct Mount {
    pub typ: Option<MountType>,
    pub source: Option<String>,
    pub target: Option<String>,
    pub read_only: Option<bool>,
    pub bind_options: Option<MountBindOptions>,
}

/// The contents of a mount as the daemon takes it.
#[verifier::ext_equal]
pub struct DaemonMountView {
    pub typ: Option<MountType>,
    pub source: Option<Seq<char>>,
    pub target: Option<Seq<char>>,
    pub read_only: Option<bool>,
    pub bind_options: Option<MountBindOptions>,
}

impl View for Mount {
    type V = DaemonMountView;

    open spec fn view(&self) -> DaemonMountView {
        DaemonMountView {
            typ: self.typ,
            source: text::opt_text(self.source),
            target: text::opt_text(self.target),
            read_only: self.read_only,
            bind_options: self.bind_options,
        }
    }
}

/// The mount that the daemon is asked for: a missing source of a bind mount is
/// created.
pub open spec fn daemon_mount(mount: MountView) -> DaemonMountView {
    DaemonMountView {
        typ: Some(mount.mount_type),
        source: mount.source,
        target: Some(mount.target),
        read_only: Some(mount.read_only),
        bind_options: if mount.mount_type == MountType::BIND {
            Some(MountBindOptions { create_mountpoint: Some(true) })
        } else {
            None
        },
    }
}

/// Turns a resolved mount into what the daemon takes.
pub fn build_bollard_mount(resolved_mount: &ResolvedMount) -> (mount: Mount)
    ensures
        mount@ == daemon_mount(resolved_mount@),
{
    Mount {
        typ: Some(resolved_mount.mount_type),
        source: clone_opt(&resolved_mount.source),
        target: Some(resolved_mount.target.clone()),
        read_only: Some(resolved_mount.read_only),
        bind_options: if matches!(resolved_mount.mount_type, MountType::BIND) {
            Some(MountBindOptions { create_mountpoint: Some(true) })
        } else {
            None
        },
    }
}

// ---------------------------------------------------------------------------
// Laws of mounts, policies and tags
// ---------------------------------------------------------------------------

/// A long entry keeps its target and whether it is read only. Its type is the one
/// that it names; a bind is made of the path on the host that its source is, a
/// tmpfs has no source, and any other keeps its own.
pub proof fn long_entry_keeps_what_it_says(
    entry: LongVolumeView,
    compose_dir: Seq<char>,
    home: Option<Seq<char>>,
)
    ensures
        long_volume(entry, compose_dir, home) matches Ok(mount) ==> {
            &&& mount.read_only == entry.read_only
            &&& mount.target == entry.target
            &&& mount.mount_type == MountType::BIND <==> entry.mount_type == "bind"@
            &&& mount.mount_type == MountType::VOLUME <==> entry.mount_type == "volume"@
            &&& mount.mount_type == MountType::TMPFS <==> entry.mount_type == "tmpfs"@
            &&& mount.mount_type == MountType::NPIPE <==> entry.mount_type == "npipe"@
            &&& entry.mount_type == "tmpfs"@ ==> mount.source is None
            &&& entry.mount_type == "volume"@ || entry.mount_type == "npipe"@ ==> mount.source
                == entry.source
            &&& entry.mount_type == "bind"@ ==> entry.source is Some && mount.source is Some
                && paths::host_path(entry.source->0, compose_dir, home) == Ok::<
                Seq<char>,
                DockerErrorView,
            >(mount.source->0)
        },
        long_volume(entry, compose_dir, home) is Ok <==> {
            ||| entry.mount_type == "volume"@
            ||| entry.mount_type == "tmpfs"@
            ||| entry.mount_type == "npipe"@
            ||| entry.mount_type == "bind"@ && entry.source is Some && paths::host_path(
                entry.source->0,
                compose_dir,
                home,
            ) is Ok
        },
        entry.mount_type == "bind"@ && entry.source is None ==> long_volume(
            entry,
            compose_dir,
            home,
        ) == Err::<MountView, DockerErrorView>(
            DockerErrorView::InvalidVolumeSpec(
                "bind mount for target ["@ + entry.target + "] is missing a source"@,
            ),
        ),
        entry.mount_type != "bind"@ && long_volume(entry, compose_dir, home) is Err ==> long_volume(
            entry,
            compose_dir,
            home,
        ) == Err::<MountView, DockerErrorView>(
            DockerErrorView::InvalidVolumeSpec(
                "unsupported mount type ["@ + entry.mount_type + "] for target ["@ + entry.target
                    + "]"@,
            ),
        ),
{
    reveal_strlit("bind");
    reveal_strlit("volume");
    reveal_strlit("tmpfs");
    reveal_strlit("npipe");
    assert("bind"@.len() != "volume"@.len());
    assert("tmpfs"@[0] != "npipe"@[0]);
}

/// A mount is read only exactly where the last of its options that are `ro` or
/// `rw` is `ro`.
pub proof fn last_access_option_counts(options: Seq<Seq<char>>)
    ensures
        read_only_options(options) <==> exists|i: int|
            0 <= i < options.len() && #[trigger] options[i] == "ro"@ && forall|j: int|
                i < j < options.len() ==> #[trigger] options[j] != "rw"@,
    decreases options.len(),
{
    reveal_strlit("ro");
    reveal_strlit("rw");
    assert("ro"@[1] != "rw"@[1]);
    if options.len() > 0 {
        let init = options.drop_last();
        let last = options.len() - 1;
        last_access_option_counts(init);
        if options[last] == "ro"@ {
            assert(options[last] == "ro"@ && forall|j: int|
                last < j < options.len() ==> #[trigger] options[j] != "rw"@);
        } else if options[last] != "rw"@ {
            if read_only_options(init) {
                let i = choose|i: int|
                    0 <= i < init.len() && #[trigger] init[i] == "ro"@ && forall|j: int|
                        i < j < init.len() ==> #[trigger] init[j] != "rw"@;
                assert forall|j: int| i < j < options.len() implies #[trigger] options[j]
                    != "rw"@ by {
                    if j < last {
                        assert(init[j] == options[j]);
                    }
                }
                assert(options[i] == "ro"@);
            }
            if exists|i: int|
                0 <= i < options.len() && #[trigger] options[i] == "ro"@ && forall|j: int|
                    i < j < options.len() ==> #[trigger] options[j] != "rw"@ {
                let i = choose|i: int|
                    0 <= i < options.len() && #[trigger] options[i] == "ro"@ && forall|j: int|
                        i < j < options.len() ==> #[trigger] options[j] != "rw"@;
                assert(i < last);
                assert(init[i] == "ro"@);
                assert forall|j: int| i < j < init.len() implies #[trigger] init[j] != "rw"@ by {
                    assert(init[j] == options[j]);
                }
            }
        }
    }
}

proof fn lemma_short_parts(source: Seq<char>, target: Seq<char>, modes: Seq<char>)
    requires
        !source.contains(':'),
        !target.contains(':'),
    ensures
        text::splitn(source, ':', 3) == seq![source],
        text::splitn(source + seq![':'] + target, ':', 3) == seq![source, target],
        text::splitn(source + seq![':'] + target + seq![':'] + modes, ':', 3) == seq![
            source,
            target,
            modes,
        ],
{
    reveal_with_fuel(text::splitn, 4);
    text::whole_text_is_not_cut(source, ':');
    text::whole_text_is_not_cut(target, ':');
    text::parts_are_told_apart(source, target, ':');
    let tail = target + seq![':'] + modes;
    text::parts_are_told_apart(target, modes, ':');
    text::parts_are_told_apart(source, tail, ':');
    assert(source + seq![':'] + target + seq![':'] + modes =~= source + seq![':'] + tail);
    assert(text::splitn(source + seq![':'] + target, ':', 3) =~= seq![source, target]);
    assert(text::splitn(source + seq![':'] + tail, ':', 3) =~= seq![source, target, modes]);
}

/// A short entry is a source, a target and options. It mounts the source at the
/// target: the path on the host where the source is one, else the volume of that
/// name. It is read only where its options say so, and not without options.
pub proof fn short_entry_mounts_its_source_at_its_target(
    source: Seq<char>,
    target: Seq<char>,
    options: Seq<Seq<char>>,
    compose_dir: Seq<char>,
    home: Option<Seq<char>>,
)
    requires
        !source.contains(':'),
        !target.contains(':'),
        source.len() > 0,
        target.len() > 0,
        options.len() > 0,
        forall|i: int| 0 <= i < options.len() ==> !(#[trigger] options[i]).contains(','),
    ensures
        ({
            let plain = short_volume(source + seq![':'] + target, compose_dir, home);
            let opted = short_volume(
                source + seq![':'] + target + seq![':'] + text::join(options, seq![',']),
                compose_dir,
                home,
            );
            let on_host = {
                ||| source[0] == '/'
                ||| source.len() >= 2 && source[0] == '.' && source[1] == '/'
                ||| source.len() >= 3 && source[0] == '.' && source[1] == '.' && source[2] == '/'
                ||| source.len() == 1 && source[0] == '~'
                ||| source.len() >= 2 && source[0] == '~' && source[1] == '/'
            };
            let read_only = exists|i: int|
                0 <= i < options.len() && #[trigger] options[i] == "ro"@ && forall|j: int|
                    i < j < options.len() ==> #[trigger] options[j] != "rw"@;
            &&& !on_host ==> plain == Ok::<MountView, DockerErrorView>(
                MountView {
                    mount_type: MountType::VOLUME,
                    source: Some(source),
                    target,
                    read_only: false,
                },
            )
            &&& on_host ==> match paths::host_path(source, compose_dir, home) {
                Ok(path) => plain == Ok::<MountView, DockerErrorView>(
                    MountView {
                        mount_type: MountType::BIND,
                        source: Some(path),
                        target,
                        read_only: false,
                    },
                ),
                Err(error) => plain == Err::<MountView, DockerErrorView>(error),
            }
            &&& plain is Ok <==> opted is Ok
            &&& plain matches Ok(mount) ==> opted == Ok::<MountView, DockerErrorView>(
                MountView { read_only, ..mount },
            )
        }),
{
    lemma_short_parts(source, target, text::join(options, seq![',']));
    paths::host_paths_are_told_by_their_beginning(source);
    text::split_inverts_join(options, ',');
    last_access_option_counts(options);
}

/// An entry that is a target alone gets a volume without a name. An empty source
/// or target is refused with the entry.
pub proof fn short_entry_needs_its_parts(
    target: Seq<char>,
    rest: Seq<char>,
    compose_dir: Seq<char>,
    home: Option<Seq<char>>,
)
    requires
        !target.contains(':'),
    ensures
        target.len() > 0 ==> short_volume(target, compose_dir, home) == Ok::<
            MountView,
            DockerErrorView,
        >(MountView { mount_type: MountType::VOLUME, source: None, target, read_only: false }),
        short_volume(Seq::empty(), compose_dir, home) == Err::<MountView, DockerErrorView>(
            DockerErrorView::InvalidVolumeSpec(Seq::empty()),
        ),
        short_volume(seq![':'] + rest, compose_dir, home) == Err::<MountView, DockerErrorView>(
            DockerErrorView::InvalidVolumeSpec(seq![':'] + rest),
        ),
        short_volume(target + seq![':'], compose_dir, home) == Err::<MountView, DockerErrorView>(
            DockerErrorView::InvalidVolumeSpec(target + seq![':']),
        ),
        short_volume(target + seq![':', ':'] + rest, compose_dir, home) == Err::<
            MountView,
            DockerErrorView,
        >(DockerErrorView::InvalidVolumeSpec(target + seq![':', ':'] + rest)),
{
    let nothing = Seq::<char>::empty();
    lemma_short_parts(target, nothing, rest);
    lemma_short_parts(nothing, nothing, rest);
    assert(target + seq![':'] + nothing =~= target + seq![':']);
    assert(target + seq![':'] + nothing + seq![':'] + rest =~= target + seq![':', ':'] + rest);
    text::parts_are_told_apart(nothing, rest, ':');
    assert(nothing + seq![':'] + rest =~= seq![':'] + rest);
    reveal_with_fuel(text::splitn, 2);
    assert(text::splitn(seq![':'] + rest, ':', 3)[0] =~= nothing);
}

/// The daemon is told the type, the source, the target and the access of a
/// mount as they are, and to make the mount point of a bind, and of no other.
pub proof fn daemon_is_told_the_mount(mount: MountView)
    ensures
        daemon_mount(mount).typ == Some(mount.mount_type),
        daemon_mount(mount).source == mount.source,
        daemon_mount(mount).target == Some(mount.target),
        daemon_mount(mount).read_only == Some(mount.read_only),
        daemon_mount(mount).bind_options is Some <==> mount.mount_type == MountType::BIND,
        daemon_mount(mount).bind_options matches Some(options) ==> options.create_mountpoint
            == Some(true),
{
}

/// A restart policy is the one that is named. A count of retries comes only with
/// `on-failure`, is not negative, and is the number that is written.
pub proof fn restart_policy_is_the_named_one(count: int, other: Seq<char>)
    ensures
        restart_policy_of(None) matches Ok(policy) && policy.name == Some(
            RestartPolicyNameEnum::NO,
        ) && policy.maximum_retry_count is None,
        restart_policy_of(Some("no"@)) matches Ok(policy) && policy.name == Some(
            RestartPolicyNameEnum::NO,
        ) && policy.maximum_retry_count is None,
        restart_policy_of(Some("always"@)) matches Ok(policy) && policy.name == Some(
            RestartPolicyNameEnum::ALWAYS,
        ) && policy.maximum_retry_count is None,
        restart_policy_of(Some("unless-stopped"@)) matches Ok(policy) && policy.name == Some(
            RestartPolicyNameEnum::UNLESS_STOPPED,
        ) && policy.maximum_retry_count is None,
        restart_policy_of(Some("on-failure"@)) matches Ok(policy) && policy.name == Some(
            RestartPolicyNameEnum::ON_FAILURE,
        ) && policy.maximum_retry_count is None,
        0 <= count <= i64::MAX ==> (restart_policy_of(
            Some("on-failure:"@ + numbers::decimal(count)),
        ) matches Ok(policy) && policy.name == Some(RestartPolicyNameEnum::ON_FAILURE)
            && policy.maximum_retry_count == Some(count as i64)),
        i64::MIN <= count < 0 ==> restart_policy_of(Some("on-failure:"@ + numbers::decimal(count)))
            is Err,
        restart_policy_of(Some(other)) is Ok ==> {
            ||| other == "no"@
            ||| other == "always"@
            ||| other == "unless-stopped"@
            ||| other == "on-failure"@
            ||| exists|digits: Seq<char>|
                other == "on-failure:"@ + digits && #[trigger] digits.len() > 0 && forall|i: int|
                    1 <= i < digits.len() ==> '0' <= #[trigger] digits[i] <= '9'
        },
        restart_policy_of(Some(other)) matches Err(error) ==> error
            == DockerErrorView::InvalidRestartPolicy(other),
{
    reveal_strlit("no");
    reveal_strlit("always");
    reveal_strlit("unless-stopped");
    reveal_strlit("on-failure");
    reveal_strlit("on-failure:");
    assert("always"@.len() == 6);
    let prefix = "on-failure:"@;
    let counted = prefix + numbers::decimal(count);
    assert(counted.take(prefix.len() as int) =~= prefix);
    assert(counted.skip(prefix.len() as int) =~= numbers::decimal(count));
    assert(counted[0] == 'o' && counted[10] == ':');
    assert("unless-stopped"@[0] == 'u');
    if i64::MIN <= count <= i64::MAX {
        numbers::parse_inverts_decimal(count, i64::MIN as int, i64::MAX as int);
    }
    if text::starts_with(other, prefix) {
        let digits = other.skip(prefix.len() as int);
        assert(other =~= prefix + digits);
        if numbers::parse_int(digits, i64::MIN as int, i64::MAX as int) is Ok {
            numbers::only_digits_are_read(digits, i64::MIN as int, i64::MAX as int);
        }
    }
}

/// An image is pulled at its own tag or digest where its last segment names one,
/// and else at the latest.
pub proof fn image_is_pulled_at_its_tag(front: Seq<char>, last: Seq<char>)
    requires
        !last.contains('/'),
    ensures
        pull_tag(last) == (if last.contains(':') || last.contains('@') {
            None
        } else {
            Some("latest"@)
        }),
        pull_tag(front + seq!['/'] + last) == pull_tag(last),
{
    text::whole_text_is_not_cut(last, '/');
    text::sides_split_on_their_own(front, last, '/');
}

/// An entry and its mount are told by what stands in them: where from, where to,
/// and whether they may only be read.
pub proof fn entries_and_mounts_are_told_as_they_are(
    entry: LongVolumeSpec,
    mount: ResolvedMount,
    told: Mount,
)
    ensures
        entry@.mount_type == entry.mount_type@,
        entry@.target == entry.target@,
        entry@.read_only == entry.read_only,
        entry@.source == text::opt_text(entry.source),
        mount@.mount_type == mount.mount_type,
        mount@.target == mount.target@,
        mount@.read_only == mount.read_only,
        mount@.source == text::opt_text(mount.source),
        told@.typ == told.typ,
        told@.target == text::opt_text(told.target),
        told@.read_only == told.read_only,
        told@.source == text::opt_text(told.source),
{
}

} // verus!
