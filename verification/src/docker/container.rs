//! The container that a service asks for.

use crate::docker::definitions::{ResolvedMount, RestartPolicy, ServiceConfig};
use crate::docker::load;
use crate::docker::volumes::{build_bollard_mount, DaemonMountView, Mount};
use crate::docker::volumes;
use crate::text::{cat2, clone_all, clone_opt, contains_text, same, split_text};
use crate::text;
use vstd::prelude::*;

verus! {

/// Where a container port is published on the host.
pub struct PortBinding {
    pub host_ip: String,
    pub host_port: String,
}

/// The contents of a port binding.
#[verifier::ext_equal]
pub struct PortBindingView {
    pub host_ip: Seq<char>,
    pub host_port: Seq<char>,
}

impl View for PortBinding {
    type V = PortBindingView;

    open spec fn view(&self) -> PortBindingView {
        PortBindingView { host_ip: self.host_ip@, host_port: self.host_port@ }
    }
}

/// Everything that the daemon is told when a container is created.
pub struct ContainerPlan {
    pub name: String,
    pub image: Option<String>,
    pub restart_policy: Option<RestartPolicy>,
    pub mounts: Option<Vec<Mount>>,
    /// The published ports: each container port once.
    pub port_bindings: Option<Vec<(String, PortBinding)>>,
    /// The networks that the container joins: each one once.
    pub networks: Vec<String>,
    pub env: Vec<String>,
    pub cmd: Vec<String>,
    pub user: String,
}

/// What one entry of the `ports` key publishes: `host:container`, on every
/// address, or `address:host:container`. Anything else publishes nothing.
pub open spec fn published(mapping: Seq<char>) -> Option<(Seq<char>, PortBindingView)> {
    let parts = text::split(mapping, ':');
    if parts.len() == 2 {
        Some(
            (
                parts[1] + "/tcp"@,
                PortBindingView { host_ip: "0.0.0.0"@, host_port: parts[0] },
            ),
        )
    } else if parts.len() == 3 {
        Some((parts[2] + "/tcp"@, PortBindingView { host_ip: parts[0], host_port: parts[1] }))
    } else {
        None
    }
}

/// What the entries of the `ports` key publish. Of several entries for one
/// container port the last one counts.
pub open spec fn published_ports(mappings: Seq<Seq<char>>) -> Map<Seq<char>, PortBindingView>
    decreases mappings.len(),
{
    if mappings.len() == 0 {
        Map::empty()
    } else {
        let before = published_ports(mappings.drop_last());
        match published(mappings.last()) {
            Some((port, binding)) => before.insert(port, binding),
            None => before,
        }
    }
}

/// A list of pairs as a map, the last pair of a key counting.
pub open spec fn bindings_map(pairs: Seq<(String, PortBinding)>) -> Map<
    Seq<char>,
    PortBindingView,
>
    decreases pairs.len(),
{
    if pairs.len() == 0 {
        Map::empty()
    } else {
        bindings_map(pairs.drop_last()).insert(pairs.last().0@, pairs.last().1@)
    }
}

/// Whether no port stands twice in a list.
pub open spec fn ports_distinct(pairs: Seq<(String, PortBinding)>) -> bool {
    forall|i: int, j: int|
        0 <= i < j < pairs.len() ==> (#[trigger] pairs[i]).0@ != (#[trigger] pairs[j]).0@
}

proof fn lemma_bindings_map(pairs: Seq<(String, PortBinding)>)
    requires
        ports_distinct(pairs),
    ensures
        forall|i: int|
            0 <= i < pairs.len() ==> bindings_map(pairs).contains_pair(
                (#[trigger] pairs[i]).0@,
                pairs[i].1@,
            ),
        forall|port: Seq<char>| #[trigger]
            bindings_map(pairs).contains_key(port) ==> exists|i: int|
                0 <= i < pairs.len() && (#[trigger] pairs[i]).0@ == port,
    decreases pairs.len(),
{
    if pairs.len() > 0 {
        let init = pairs.drop_last();
        assert forall|i: int, j: int| 0 <= i < j < init.len() implies (#[trigger] init[i]).0@ != (
        #[trigger] init[j]).0@ by {
            assert(pairs[i].0@ != pairs[j].0@);
        }
        lemma_bindings_map(init);
        assert forall|i: int| 0 <= i < pairs.len() implies bindings_map(pairs).contains_pair(
            (#[trigger] pairs[i]).0@,
            pairs[i].1@,
        ) by {
            if i < init.len() {
                assert(init[i] == pairs[i]);
                assert(bindings_map(init).contains_pair(init[i].0@, init[i].1@));
                assert(pairs[i].0@ != pairs[pairs.len() - 1].0@);
            }
        }
        assert forall|port: Seq<char>| #[trigger]
            bindings_map(pairs).contains_key(port) implies exists|i: int|
            0 <= i < pairs.len() && (#[trigger] pairs[i]).0@ == port by {
            if port == pairs.last().0@ {
                assert(pairs[pairs.len() - 1].0@ == port);
            } else {
                assert(bindings_map(init).contains_key(port));
                let i = choose|i: int| 0 <= i < init.len() && (#[trigger] init[i]).0@ == port;
                assert(pairs[i].0@ == port);
            }
        }
    }
}

/// Two lists of distinct ports that agree on where each port goes are the same
/// map.
proof fn lemma_bindings_map_is(
    pairs: Seq<(String, PortBinding)>,
    wanted: Map<Seq<char>, PortBindingView>,
)
    requires
        ports_distinct(pairs),
        forall|i: int|
            0 <= i < pairs.len() ==> wanted.contains_pair((#[trigger] pairs[i]).0@, pairs[i].1@),
        forall|port: Seq<char>| #[trigger]
            wanted.contains_key(port) ==> exists|i: int|
                0 <= i < pairs.len() && (#[trigger] pairs[i]).0@ == port,
    ensures
        bindings_map(pairs) == wanted,
{
    lemma_bindings_map(pairs);
    assert forall|port: Seq<char>|
        bindings_map(pairs).contains_key(port) <==> wanted.contains_key(port) by {
        if wanted.contains_key(port) {
            let i = choose|i: int| 0 <= i < pairs.len() && (#[trigger] pairs[i]).0@ == port;
            assert(bindings_map(pairs).contains_pair(pairs[i].0@, pairs[i].1@));
        }
        if bindings_map(pairs).contains_key(port) {
            let i = choose|i: int| 0 <= i < pairs.len() && (#[trigger] pairs[i]).0@ == port;
            assert(wanted.contains_pair(pairs[i].0@, pairs[i].1@));
        }
    }
    assert forall|port: Seq<char>| bindings_map(pairs).contains_key(port) implies bindings_map(
        pairs,
    )[port] == wanted[port] by {
        let i = choose|i: int| 0 <= i < pairs.len() && (#[trigger] pairs[i]).0@ == port;
        assert(bindings_map(pairs).contains_pair(pairs[i].0@, pairs[i].1@));
        assert(wanted.contains_pair(pairs[i].0@, pairs[i].1@));
    }
    assert(bindings_map(pairs) =~= wanted);
}

/// What one entry of the `ports` key publishes.
fn parse_port_mapping(mapping: &str) -> (found: Option<(String, PortBinding)>)
    ensures
        match found {
            Some((port, binding)) => published(mapping@) == Some((port@, binding@)),
            None => published(mapping@) is None,
        },
{
    let parts = split_text(mapping, ':');
    let ghost pieces = text::split(mapping@, ':');
    assert(forall|i: int| 0 <= i < parts@.len() ==> pieces[i] == (#[trigger] parts@[i])@);
    assert(pieces.len() == parts@.len());
    if parts.len() == 2 {
        Some(
            (
                cat2(&parts[1], "/tcp"),
                PortBinding { host_ip: "0.0.0.0".to_owned(), host_port: parts[0].clone() },
            ),
        )
    } else if parts.len() == 3 {
        Some(
            (
                cat2(&parts[2], "/tcp"),
                PortBinding { host_ip: parts[0].clone(), host_port: parts[1].clone() },
            ),
        )
    } else {
        None
    }
}

/// Puts a binding into a list, in place of the one for the same port.
fn put_binding(pairs: &mut Vec<(String, PortBinding)>, port: String, binding: PortBinding)
    requires
        ports_distinct(old(pairs)@),
    ensures
        ports_distinct(final(pairs)@),
        bindings_map(final(pairs)@) == bindings_map(old(pairs)@).insert(port@, binding@),
{
    let ghost before = pairs@;
    let ghost key = port@;
    let ghost value = binding@;
    let ghost wanted = bindings_map(before).insert(key, value);
    let mut i: usize = 0;
    while i < pairs.len()
        invariant
            pairs@ == before,
            before == old(pairs)@,
            key == port@,
            value == binding@,
            wanted == bindings_map(before).insert(key, value),
            ports_distinct(before),
            i <= before.len(),
            forall|j: int| 0 <= j < i ==> (#[trigger] before[j]).0@ != port@,
        decreases before.len() - i,
    {
        if same(&pairs[i].0, &port) {
            let kept = pairs[i].0.clone();
            pairs.set(i, (kept, binding));
            proof {
                let after = pairs@;
                lemma_bindings_map(before);
                assert(after =~= before.update(i as int, (kept, binding)));
                assert forall|a: int, b: int| 0 <= a < b < after.len() implies (
                #[trigger] after[a]).0@ != (#[trigger] after[b]).0@ by {
                    assert(before[a].0@ != before[b].0@);
                }
                assert forall|a: int| 0 <= a < after.len() implies wanted.contains_pair(
                    (#[trigger] after[a]).0@,
                    after[a].1@,
                ) by {
                    if a != i {
                        assert(bindings_map(before).contains_pair(before[a].0@, before[a].1@));
                        if a < i {
                            assert(before[a].0@ != before[i as int].0@);
                        } else {
                            assert(before[i as int].0@ != before[a].0@);
                        }
                    }
                }
                assert forall|p: Seq<char>| #[trigger] wanted.contains_key(p) implies exists|a: int|
                    0 <= a < after.len() && (#[trigger] after[a]).0@ == p by {
                    if p == key {
                        assert(after[i as int].0@ == p);
                    } else {
                        assert(bindings_map(before).contains_key(p));
                        let a = choose|a: int|
                            0 <= a < before.len() && (#[trigger] before[a]).0@ == p;
                        assert(after[a].0@ == p);
                    }
                }
                lemma_bindings_map_is(after, wanted);
            }
            return ;
        }
        i += 1;
    }
    pairs.push((port, binding));
    proof {
        let after = pairs@;
        assert(after.drop_last() =~= before);
        assert forall|a: int, b: int| 0 <= a < b < after.len() implies (#[trigger] after[a]).0@ != (
        #[trigger] after[b]).0@ by {
            if b < before.len() {
                assert(before[a].0@ != before[b].0@);
            } else {
                assert(before[a].0@ != key);
            }
        }
    }
}

/// The published ports of a service.
fn plan_ports(mappings: &Vec<String>) -> (pairs: Vec<(String, PortBinding)>)
    ensures
        ports_distinct(pairs@),
        bindings_map(pairs@) == published_ports(text::texts(mappings@)),
{
    let ghost all = text::texts(mappings@);
    let mut pairs: Vec<(String, PortBinding)> = Vec::new();
    let mut i: usize = 0;
    assert(bindings_map(pairs@) =~= published_ports(all.take(0)));
    while i < mappings.len()
        invariant
            i <= mappings@.len(),
            all == text::texts(mappings@),
            ports_distinct(pairs@),
            bindings_map(pairs@) == published_ports(all.take(i as int)),
        decreases mappings@.len() - i,
    {
        assert(all.take(i + 1).drop_last() =~= all.take(i as int));
        assert(all.take(i + 1).last() == mappings@[i as int]@);
        if let Some((port, binding)) = parse_port_mapping(&mappings[i]) {
            put_binding(&mut pairs, port, binding);
        }
        i += 1;
    }
    assert(all.take(i as int) =~= all);
    pairs
}

/// The contents of a list of mounts as the daemon takes them.
pub open spec fn daemon_views(mounts: Seq<Mount>) -> Seq<DaemonMountView> {
    Seq::new(mounts.len(), |i: int| mounts[i]@)
}

/// The mounts of a service as the daemon takes them.
fn plan_mounts(mounts: &Vec<ResolvedMount>) -> (planned: Vec<Mount>)
    ensures
        daemon_views(planned@) == load::mount_views(mounts@).map_values(
            |mount| volumes::daemon_mount(mount),
        ),
{
    let mut planned: Vec<Mount> = Vec::new();
    for i in 0..mounts.len()
        invariant
            planned@.len() == i,
            forall|j: int| 0 <= j < i ==> (#[trigger] planned@[j])@ == volumes::daemon_mount(mounts@[j]@),
    {
        planned.push(build_bollard_mount(&mounts[i]));
    }
    assert(daemon_views(planned@) =~= load::mount_views(mounts@).map_values(|mount| volumes::daemon_mount(mount)));
    planned
}

/// The networks of a service, each one once.
fn plan_networks(networks: &Vec<String>) -> (planned: Vec<String>)
    ensures
        text::texts(planned@).no_duplicates(),
        text::texts(planned@).to_set() == text::texts(networks@).to_set(),
{
    let ghost all = text::texts(networks@);
    let mut planned: Vec<String> = Vec::new();
    let mut i: usize = 0;
    assert(text::texts(planned@).to_set() =~= all.take(0).to_set());
    while i < networks.len()
        invariant
            i <= networks@.len(),
            all == text::texts(networks@),
            text::texts(planned@).no_duplicates(),
            text::texts(planned@).to_set() == all.take(i as int).to_set(),
        decreases networks@.len() - i,
    {
        let ghost before = text::texts(planned@);
        let ghost next = networks@[i as int]@;
        assert(all.take(i + 1) =~= all.take(i as int).push(next));
        proof {
            vstd::seq_lib::seq_to_set_distributes_over_add(all.take(i as int), seq![next]);
            all.take(i as int).lemma_push_to_set_commute(next);
            before.lemma_push_to_set_commute(next);
        }
        if !contains_text(&planned, &networks[i]) {
            planned.push(networks[i].clone());
            assert(text::texts(planned@) =~= before.push(next));
        } else {
            assert(before.to_set().contains(next));
            assert(before.to_set().insert(next) =~= before.to_set());
        }
        i += 1;
    }
    assert(all.take(i as int) =~= all);
    planned
}

/// The text of an optional string, or nothing.
pub open spec fn text_or_empty(text: Option<String>) -> Seq<char> {
    match text {
        Some(inner) => inner@,
        None => Seq::empty(),
    }
}

/// Whether a plan says what a loaded service asks for. The container is called
/// after the service; `container_name` plays no part.
pub open spec fn plans(plan: ContainerPlan, service_name: Seq<char>, config: ServiceConfig) -> bool {
    &&& plan.name@ == service_name
    &&& text::opt_text(plan.image) == text::opt_text(config.image)
    &&& plan.restart_policy == config.restart_policy
    &&& match plan.mounts {
        Some(mounts) => config.mounts@.len() > 0 && daemon_views(mounts@) == load::mount_views(
            config.mounts@,
        ).map_values(|mount| volumes::daemon_mount(mount)),
        None => config.mounts@.len() == 0,
    }
    &&& match (plan.port_bindings, config.ports) {
        (Some(pairs), Some(ports)) => ports_distinct(pairs@) && bindings_map(pairs@)
            == published_ports(text::texts(ports@)),
        (None, None) => true,
        _ => false,
    }
    &&& text::texts(plan.networks@).no_duplicates()
    &&& text::texts(plan.networks@).to_set() == (match config.networks {
        Some(networks) => text::texts(networks@).to_set(),
        None => Set::empty(),
    })
    &&& text::texts(plan.env@) == text::texts(config.env@)
    &&& text::texts(plan.cmd@) == text::texts(config.command_argv@)
    &&& plan.user@ == text_or_empty(config.user)
}

/// Plans the container of a loaded service.
pub fn plan_container(service_name: &str, config: &ServiceConfig) -> (plan: ContainerPlan)
    ensures
        plans(plan, service_name@, *config),
{
    let mounts = if config.mounts.len() > 0 {
        Some(plan_mounts(&config.mounts))
    } else {
        None
    };
    let port_bindings = match &config.ports {
        Some(ports) => Some(plan_ports(ports)),
        None => None,
    };
    let networks: Vec<String> = match &config.networks {
        Some(networks) => plan_networks(networks),
        None => Vec::new(),
    };
    assert(config.networks is None ==> text::texts(networks@).to_set() =~= Set::empty());
    ContainerPlan {
        name: service_name.to_owned(),
        image: clone_opt(&config.image),
        restart_policy: config.restart_policy,
        mounts,
        port_bindings,
        networks,
        env: clone_all(&config.env),
        cmd: clone_all(&config.command_argv),
        user: match &config.user {
            Some(user) => user.clone(),
            None => String::new(),
        },
    }
}

// ---------------------------------------------------------------------------
// Laws of containers
// ---------------------------------------------------------------------------

/// A port mapping publishes the port of the container, under TCP, at the port of
/// the host: on all addresses, or on the one that stands in front. What has no
/// colon, or more than two, publishes nothing.
pub proof fn mapping_publishes_its_ports(
    address: Seq<char>,
    host_port: Seq<char>,
    port: Seq<char>,
    rest: Seq<char>,
)
    requires
        !address.contains(':'),
        !host_port.contains(':'),
        !port.contains(':'),
    ensures
        published(port) is None,
        published(host_port + seq![':'] + port) == Some(
            (port + "/tcp"@, PortBindingView { host_ip: "0.0.0.0"@, host_port }),
        ),
        published(address + seq![':'] + host_port + seq![':'] + port) == Some(
            (port + "/tcp"@, PortBindingView { host_ip: address, host_port }),
        ),
        published(address + seq![':'] + host_port + seq![':'] + port + seq![':'] + rest) is None,
{
    text::whole_text_is_not_cut(address, ':');
    text::whole_text_is_not_cut(host_port, ':');
    text::whole_text_is_not_cut(port, ':');
    text::sides_split_on_their_own(host_port, port, ':');
    text::sides_split_on_their_own(address, host_port, ':');
    text::sides_split_on_their_own(address + seq![':'] + host_port, port, ':');
    text::sides_split_on_their_own(
        address + seq![':'] + host_port + seq![':'] + port,
        rest,
        ':',
    );
    text::lemma_split_pieces(rest, ':');
}

/// A port is published exactly where a mapping publishes it, as the last of these
/// says.
pub proof fn last_mapping_of_a_port_counts(
    mappings: Seq<Seq<char>>,
    port: Seq<char>,
    mapping: Seq<char>,
)
    ensures
        published_ports(Seq::empty()).dom() == Set::<Seq<char>>::empty(),
        published(mapping) matches Some((published_port, binding)) ==> {
            &&& published_ports(mappings.push(mapping)).contains_pair(published_port, binding)
            &&& port != published_port ==> {
                &&& published_ports(mappings.push(mapping)).contains_key(port)
                    == published_ports(mappings).contains_key(port)
                &&& published_ports(mappings).contains_key(port) ==> published_ports(
                    mappings.push(mapping),
                )[port] == published_ports(mappings)[port]
            }
        },
        published(mapping) is None ==> published_ports(mappings.push(mapping)) == published_ports(
            mappings,
        ),
{
    assert(mappings.push(mapping).drop_last() =~= mappings);
    assert(published_ports(Seq::empty()).dom() =~= Set::<Seq<char>>::empty());
}

/// The container of a service is what the service says: its name, its image, its
/// environment and its command as they were resolved, its user, its restart
/// policy, its networks, each once, and its mounts, in order.
pub proof fn container_is_what_the_service_says(
    plan: ContainerPlan,
    service_name: Seq<char>,
    config: ServiceConfig,
)
    requires
        plans(plan, service_name, config),
    ensures
        plan.name@ == service_name,
        plan.image is Some == config.image is Some,
        config.image is Some ==> plan.image->0@ == config.image->0@,
        plan.restart_policy == config.restart_policy,
        plan.env@.len() == config.env@.len(),
        forall|i: int| 0 <= i < config.env@.len() ==> (#[trigger] plan.env@[i])@ == config.env@[i]@,
        plan.cmd@.len() == config.command_argv@.len(),
        forall|i: int|
            0 <= i < config.command_argv@.len() ==> (#[trigger] plan.cmd@[i])@
                == config.command_argv@[i]@,
        config.user matches Some(user) ==> plan.user@ == user@,
        config.user is None ==> plan.user@.len() == 0,
        config.networks matches Some(networks) ==> {
            &&& forall|i: int|
                0 <= i < networks@.len() ==> text::texts(plan.networks@).contains(
                    (#[trigger] networks@[i])@,
                )
            &&& forall|j: int|
                0 <= j < plan.networks@.len() ==> text::texts(networks@).contains(
                    (#[trigger] plan.networks@[j])@,
                )
        },
        config.networks is None ==> plan.networks@.len() == 0,
        forall|i: int, j: int|
            0 <= i < j < plan.networks@.len() ==> (#[trigger] plan.networks@[i])@ != (
            #[trigger] plan.networks@[j])@,
        plan.mounts is Some <==> config.mounts@.len() > 0,
        plan.mounts matches Some(mounts) ==> {
            &&& mounts@.len() == config.mounts@.len()
            &&& forall|i: int|
                0 <= i < mounts@.len() ==> (#[trigger] mounts@[i])@ == volumes::daemon_mount(
                    config.mounts@[i]@,
                )
        },
        plan.port_bindings is Some <==> config.ports is Some,
        plan.port_bindings is Some ==> bindings_map(plan.port_bindings->0@) == published_ports(
            text::texts(config.ports->0@),
        ),
{
    assert(text::texts(plan.env@).len() == text::texts(config.env@).len());
    assert(text::texts(plan.cmd@).len() == text::texts(config.command_argv@).len());
    assert forall|i: int| 0 <= i < config.env@.len() implies (#[trigger] plan.env@[i])@
        == config.env@[i]@ by {
        assert(text::texts(plan.env@)[i] == plan.env@[i]@);
        assert(text::texts(config.env@)[i] == config.env@[i]@);
    }
    assert forall|i: int| 0 <= i < config.command_argv@.len() implies (#[trigger] plan.cmd@[i])@
        == config.command_argv@[i]@ by {
        assert(text::texts(plan.cmd@)[i] == plan.cmd@[i]@);
        assert(text::texts(config.command_argv@)[i] == config.command_argv@[i]@);
    }
    let joined = text::texts(plan.networks@);
    assert forall|i: int, j: int| 0 <= i < j < plan.networks@.len() implies (
    #[trigger] plan.networks@[i])@ != (#[trigger] plan.networks@[j])@ by {
        assert(joined[i] != joined[j]);
    }
    if let Some(networks) = config.networks {
        let wanted = text::texts(networks@);
        assert forall|i: int| 0 <= i < networks@.len() implies joined.contains(
            (#[trigger] networks@[i])@,
        ) by {
            assert(wanted[i] == networks@[i]@);
            assert(wanted.to_set().contains(wanted[i]));
            assert(joined.to_set().contains(wanted[i]));
        }
        assert forall|j: int| 0 <= j < plan.networks@.len() implies wanted.contains(
            (#[trigger] plan.networks@[j])@,
        ) by {
            assert(joined[j] == plan.networks@[j]@);
            assert(joined.to_set().contains(joined[j]));
            assert(wanted.to_set().contains(joined[j]));
        }
    } else {
        if plan.networks@.len() > 0 {
            assert(joined.contains(joined[0]));
            assert(joined.to_set().contains(joined[0]));
        }
    }
    if let Some(mounts) = plan.mounts {
        let shown = daemon_views(mounts@);
        assert(shown.len() == mounts@.len());
        assert forall|i: int| 0 <= i < mounts@.len() implies (#[trigger] mounts@[i])@
            == volumes::daemon_mount(config.mounts@[i]@) by {
            assert(shown[i] == mounts@[i]@);
            assert(load::mount_views(config.mounts@)[i] == config.mounts@[i]@);
        }
    }
}

proof fn lemma_bindings(pairs: Seq<(String, PortBinding)>)
    requires
        ports_distinct(pairs),
    ensures
        forall|i: int|
            0 <= i < pairs.len() ==> bindings_map(pairs).contains_pair(
                (#[trigger] pairs[i]).0@,
                pairs[i].1@,
            ),
        forall|port: Seq<char>| #[trigger]
            bindings_map(pairs).contains_key(port) ==> exists|i: int|
                0 <= i < pairs.len() && (#[trigger] pairs[i]).0@ == port,
    decreases pairs.len(),
{
    if pairs.len() > 0 {
        let init = pairs.drop_last();
        let last = pairs.len() - 1;
        assert(forall|i: int| 0 <= i < init.len() ==> #[trigger] init[i] == pairs[i]);
        assert(ports_distinct(init));
        lemma_bindings(init);
        assert forall|i: int| 0 <= i < pairs.len() implies bindings_map(pairs).contains_pair(
            (#[trigger] pairs[i]).0@,
            pairs[i].1@,
        ) by {
            if i < last {
                assert(init[i] == pairs[i]);
                assert(pairs[i].0@ != pairs[last].0@);
            }
        }
        assert forall|port: Seq<char>| #[trigger]
            bindings_map(pairs).contains_key(port) implies exists|i: int|
            0 <= i < pairs.len() && (#[trigger] pairs[i]).0@ == port by {
            if port == pairs[last].0@ {
                assert(pairs[last].0@ == port);
            } else {
                assert(bindings_map(init).contains_key(port));
                let i = choose|i: int| 0 <= i < init.len() && (#[trigger] init[i]).0@ == port;
                assert(pairs[i].0@ == port);
            }
        }
    }
}

/// The ports of a container are those that its service publishes, each bound once,
/// to where the service says.
pub proof fn ports_are_bound_as_published(
    plan: ContainerPlan,
    service_name: Seq<char>,
    config: ServiceConfig,
)
    requires
        plans(plan, service_name, config),
        plan.port_bindings is Some,
    ensures
        ({
            let pairs = plan.port_bindings->0@;
            let wanted = published_ports(text::texts(config.ports->0@));
            &&& forall|i: int|
                0 <= i < pairs.len() ==> wanted.contains_pair(
                    (#[trigger] pairs[i]).0@,
                    pairs[i].1@,
                )
            &&& forall|i: int, j: int|
                0 <= i < j < pairs.len() ==> (#[trigger] pairs[i]).0@ != (#[trigger] pairs[j]).0@
            &&& forall|port: Seq<char>| #[trigger]
                wanted.contains_key(port) ==> exists|i: int|
                    0 <= i < pairs.len() && (#[trigger] pairs[i]).0@ == port
        }),
{
    lemma_bindings(plan.port_bindings->0@);
}

} // verus!
