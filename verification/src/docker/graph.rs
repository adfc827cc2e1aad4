//! The graph that `depends_on` spans, and the search for loops in it.

use crate::docker::definitions::{
    DependencyCondition, DependsOn, DockerErrorView, DockerModuleError, ServiceConfig,
};
use crate::text::{join_texts, same};
use crate::text;
use vstd::prelude::*;

verus! {

/// The dependencies of a service, each with its condition. An entry of the list
/// form asks that the dependency is started.
pub open spec fn dependencies_of(depends_on: Option<DependsOn>) -> Seq<
    (Seq<char>, DependencyCondition),
> {
    match depends_on {
        None => Seq::empty(),
        Some(DependsOn::List(names)) => Seq::new(
            names@.len(),
            |i: int| (names@[i]@, DependencyCondition::ServiceStarted),
        ),
        Some(DependsOn::Mapping(entries)) => Seq::new(
            entries@.len(),
            |i: int| (entries@[i].0@, entries@[i].1.condition),
        ),
    }
}

/// The texts and conditions of a list of dependencies.
pub open spec fn conditioned(pairs: Seq<(String, DependencyCondition)>) -> Seq<
    (Seq<char>, DependencyCondition),
> {
    Seq::new(pairs.len(), |i: int| (pairs[i].0@, pairs[i].1))
}

impl ServiceConfig {
    /// Brings both forms of `depends_on` into a flat list of dependency names
    /// and conditions.
    pub fn dependencies(&self) -> (found: Vec<(String, DependencyCondition)>)
        ensures
            conditioned(found@) == dependencies_of(self.depends_on),
    {
        let mut found: Vec<(String, DependencyCondition)> = Vec::new();
        match &self.depends_on {
            None => {},
            Some(DependsOn::List(names)) => {
                for i in 0..names.len()
                    invariant
                        found@.len() == i,
                        forall|j: int|
                            0 <= j < i ==> (#[trigger] found@[j]).0@ == names@[j]@ && found@[j].1
                                == DependencyCondition::ServiceStarted,
                {
                    found.push((names[i].clone(), DependencyCondition::ServiceStarted));
                }
            },
            Some(DependsOn::Mapping(entries)) => {
                for i in 0..entries.len()
                    invariant
                        found@.len() == i,
                        forall|j: int|
                            0 <= j < i ==> (#[trigger] found@[j]).0@ == entries@[j].0@
                                && found@[j].1 == entries@[j].1.condition,
                {
                    let entry = &entries[i];
                    found.push((entry.0.clone(), entry.1.condition));
                }
            },
        }
        assert(conditioned(found@) =~= dependencies_of(self.depends_on));
        found
    }
}

/// The names of the services, in order.
pub open spec fn service_names(services: Seq<(String, ServiceConfig)>) -> Seq<Seq<char>> {
    Seq::new(services.len(), |i: int| services[i].0@)
}

/// The names that each service depends on, in order.
pub open spec fn dependency_names(services: Seq<(String, ServiceConfig)>) -> Seq<Seq<Seq<char>>> {
    Seq::new(
        services.len(),
        |i: int|
            {
                let found = dependencies_of(services[i].1.depends_on);
                Seq::new(found.len(), |j: int| found[j].0)
            },
    )
}

/// Whether the `j`th dependency of the `i`th service is no service.
pub open spec fn unknown_at(
    names: Seq<Seq<char>>,
    wanted: Seq<Seq<Seq<char>>>,
    i: int,
    j: int,
) -> bool {
    0 <= i < wanted.len() && 0 <= j < wanted[i].len() && !names.contains(wanted[i][j])
}

/// Whether the `j`th dependency of the `i`th service is the first one that is
/// no service.
pub open spec fn first_unknown(
    names: Seq<Seq<char>>,
    wanted: Seq<Seq<Seq<char>>>,
    i: int,
    j: int,
) -> bool {
    &&& unknown_at(names, wanted, i, j)
    &&& forall|a: int, b: int| #[trigger]
        unknown_at(names, wanted, a, b) ==> i < a || (i == a && j <= b)
}

/// Whether every dependency is a service.
pub open spec fn all_known(names: Seq<Seq<char>>, wanted: Seq<Seq<Seq<char>>>) -> bool {
    forall|i: int, j: int| !(#[trigger] unknown_at(names, wanted, i, j))
}

/// The position of the last service called `name`, or -1 where there is none.
/// Of several services with one name the last one counts.
pub open spec fn position(names: Seq<Seq<char>>, name: Seq<char>) -> int
    decreases names.len(),
{
    if names.len() == 0 {
        -1
    } else if names.last() == name {
        names.len() - 1
    } else {
        position(names.drop_last(), name)
    }
}

/// What `position` finds.
pub proof fn lemma_position(names: Seq<Seq<char>>, name: Seq<char>)
    ensures
        -1 <= position(names, name) < names.len(),
        position(names, name) >= 0 <==> names.contains(name),
        position(names, name) >= 0 ==> names[position(names, name)] == name,
    decreases names.len(),
{
    if names.len() > 0 && names.last() != name {
        lemma_position(names.drop_last(), name);
        if names.contains(name) {
            let k = choose|k: int| 0 <= k < names.len() && names[k] == name;
            assert(names.drop_last()[k] == name);
        }
        if names.drop_last().contains(name) {
            let k = choose|k: int|
                0 <= k < names.drop_last().len() && names.drop_last()[k] == name;
            assert(names[k] == name);
        }
    } else if names.len() > 0 {
        assert(names[names.len() - 1] == name);
    }
}

/// The dependency graph over the positions of the services.
pub open spec fn graph_edges(names: Seq<Seq<char>>, wanted: Seq<Seq<Seq<char>>>) -> Seq<
    Seq<usize>,
> {
    Seq::new(
        names.len(),
        |i: int|
            {
                let own = wanted[position(names, names[i])];
                Seq::new(own.len(), |j: int| position(names, own[j]) as usize)
            },
    )
}

/// The positions at which the search starts, one for each service.
pub open spec fn graph_roots(names: Seq<Seq<char>>) -> Seq<usize> {
    Seq::new(names.len(), |i: int| position(names, names[i]) as usize)
}

/// How far a depth-first search has come: the services that are done, each
/// after everything that it depends on, and the first cycle that it met.
#[verifier::ext_equal]
pub struct Search {
    pub done: Seq<usize>,
    pub cycle: Option<Seq<usize>>,
}

/// Visits one service. `stack` holds the services that are being visited, each
/// a dependent of the next.
pub open spec fn visit(
    edges: Seq<Seq<usize>>,
    node: usize,
    done: Seq<usize>,
    stack: Seq<usize>,
) -> Search
    decreases edges.len() + 1 - stack.len(), 0nat,
{
    if done.contains(node) {
        Search { done, cycle: None }
    } else if stack.contains(node) {
        Search { done, cycle: Some(stack.skip(stack.index_of(node)).push(node)) }
    } else if stack.len() >= edges.len() {
        Search { done, cycle: None }
    } else {
        let inner = visit_all(edges, edges[node as int], done, stack.push(node));
        if inner.cycle is Some {
            inner
        } else {
            Search { done: inner.done.push(node), cycle: None }
        }
    }
}

/// Visits services one after the other, up to the first cycle.
pub open spec fn visit_all(
    edges: Seq<Seq<usize>>,
    targets: Seq<usize>,
    done: Seq<usize>,
    stack: Seq<usize>,
) -> Search
    decreases edges.len() + 1 - stack.len(), 1 + targets.len(),
{
    if targets.len() == 0 {
        Search { done, cycle: None }
    } else {
        let before = visit_all(edges, targets.drop_last(), done, stack);
        if before.cycle is Some {
            before
        } else {
            visit(edges, targets.last(), before.done, stack)
        }
    }
}

/// The search of a whole dependency graph.
pub open spec fn graph_search(names: Seq<Seq<char>>, wanted: Seq<Seq<Seq<char>>>) -> Search {
    visit_all(graph_edges(names, wanted), graph_roots(names), Seq::empty(), Seq::empty())
}

/// The names of the services at the given positions.
pub open spec fn names_at(names: Seq<Seq<char>>, positions: Seq<usize>) -> Seq<Seq<char>> {
    Seq::new(positions.len(), |k: int| names[positions[k] as int])
}

/// What is wrong with a dependency graph: the first dependency that is no
/// service, else the first cycle.
pub open spec fn graph_error(names: Seq<Seq<char>>, wanted: Seq<Seq<Seq<char>>>) -> Option<
    DockerErrorView,
> {
    if !all_known(names, wanted) {
        let (i, j) = choose|i: int, j: int| first_unknown(names, wanted, i, j);
        Some(DockerErrorView::UnknownDependency { service: names[i], dependency: wanted[i][j] })
    } else {
        match graph_search(names, wanted).cycle {
            Some(cycle) => Some(
                DockerErrorView::DependencyCycle(text::join(names_at(names, cycle), " -> "@)),
            ),
            None => None,
        }
    }
}

// ---------------------------------------------------------------------------
// What the search finds
// ---------------------------------------------------------------------------

/// Whether every edge leads to a service.
pub open spec fn edges_in_range(edges: Seq<Seq<usize>>) -> bool {
    forall|i: int, j: int|
        0 <= i < edges.len() && 0 <= j < edges[i].len() ==> #[trigger] edges[i][j] < edges.len()
}

/// Whether the stack is a path without repetitions.
pub open spec fn stack_ok(edges: Seq<Seq<usize>>, stack: Seq<usize>) -> bool {
    &&& stack.no_duplicates()
    &&& forall|k: int| 0 <= k < stack.len() ==> #[trigger] stack[k] < edges.len()
    &&& forall|k: int|
        0 < k < stack.len() ==> edges[#[trigger] stack[k - 1] as int].contains(stack[k])
}

/// Whether the stack can be followed by `node`.
pub open spec fn follows(edges: Seq<Seq<usize>>, stack: Seq<usize>, node: usize) -> bool {
    stack.len() > 0 ==> edges[stack.last() as int].contains(node)
}

/// A walk along the edges that ends where it began.
pub open spec fn closed_walk(edges: Seq<Seq<usize>>, walk: Seq<usize>) -> bool {
    &&& walk.len() >= 2
    &&& walk[0] == walk.last()
    &&& forall|k: int| 0 <= k < walk.len() ==> #[trigger] walk[k] < edges.len()
    &&& forall|k: int|
        0 < k < walk.len() ==> edges[#[trigger] walk[k - 1] as int].contains(walk[k])
}

/// Whether each service stands after everything that it depends on.
pub open spec fn ordered(edges: Seq<Seq<usize>>, done: Seq<usize>) -> bool {
    &&& forall|k: int| 0 <= k < done.len() ==> #[trigger] done[k] < edges.len()
    &&& forall|k: int, j: int|
        0 <= k < done.len() && 0 <= j < edges[done[k] as int].len() ==> done.take(k).contains(
            #[trigger] edges[done[k] as int][j],
        )
}

/// A path without repetitions is no longer than the graph, so that a service
/// outside it leaves room for one more.
proof fn lemma_stack_room(edges: Seq<Seq<usize>>, stack: Seq<usize>, node: usize)
    requires
        stack_ok(edges, stack),
        node < edges.len(),
        !stack.contains(node),
    ensures
        stack.len() < edges.len(),
{
    let longer = stack.push(node);
    assert(longer.no_duplicates());
    let positions = longer.map_values(|p: usize| p as int);
    assert(positions.no_duplicates());
    let range = vstd::set_lib::set_int_range(0, edges.len() as int);
    vstd::set_lib::lemma_int_range(0, edges.len() as int);
    positions.unique_seq_to_set();
    assert forall|p: int| positions.to_set().contains(p) implies range.contains(p) by {
        let k = choose|k: int| 0 <= k < positions.len() && positions[k] == p;
        assert(longer[k] as int == p);
        if k < stack.len() {
            assert(stack[k] < edges.len());
        }
    }
    vstd::set_lib::lemma_len_subset(positions.to_set(), range);
}

/// Pushing a service that follows keeps the stack a path.
proof fn lemma_stack_push(edges: Seq<Seq<usize>>, stack: Seq<usize>, node: usize)
    requires
        stack_ok(edges, stack),
        node < edges.len(),
        !stack.contains(node),
        follows(edges, stack, node),
    ensures
        stack_ok(edges, stack.push(node)),
{
    let longer = stack.push(node);
    assert forall|k: int| 0 < k < longer.len() implies edges[#[trigger] longer[k - 1] as int].contains(
        longer[k],
    ) by {
        if k < stack.len() {
            assert(edges[stack[k - 1] as int].contains(stack[k]));
        }
    }
}

/// A cycle that the search reports is a closed walk.
proof fn lemma_visit_cycle(
    edges: Seq<Seq<usize>>,
    node: usize,
    done: Seq<usize>,
    stack: Seq<usize>,
)
    requires
        edges_in_range(edges),
        stack_ok(edges, stack),
        node < edges.len(),
        follows(edges, stack, node),
    ensures
        visit(edges, node, done, stack).cycle matches Some(cycle) ==> closed_walk(edges, cycle),
    decreases edges.len() + 1 - stack.len(), 0nat,
{
    if done.contains(node) {
    } else if stack.contains(node) {
        let start = stack.index_of(node);
        assert(0 <= start < stack.len() && stack[start] == node);
        let cycle = stack.skip(start).push(node);
        assert(cycle[0] == node);
        assert forall|k: int| 0 < k < cycle.len() implies edges[#[trigger] cycle[k - 1] as int].contains(
            cycle[k],
        ) by {
            assert(cycle[k - 1] == stack[start + k - 1]);
            if start + k < stack.len() {
                assert(cycle[k] == stack[start + k]);
                assert(edges[stack[start + k - 1] as int].contains(stack[start + k]));
            }
        }
        assert forall|k: int| 0 <= k < cycle.len() implies #[trigger] cycle[k] < edges.len() by {
            if k < cycle.len() - 1 {
                assert(cycle[k] == stack[start + k]);
            }
        }
    } else {
        lemma_stack_room(edges, stack, node);
        lemma_stack_push(edges, stack, node);
        lemma_visit_all_cycle(edges, edges[node as int], done, stack.push(node));
    }
}

proof fn lemma_visit_all_cycle(
    edges: Seq<Seq<usize>>,
    targets: Seq<usize>,
    done: Seq<usize>,
    stack: Seq<usize>,
)
    requires
        edges_in_range(edges),
        stack_ok(edges, stack),
        forall|j: int| 0 <= j < targets.len() ==> #[trigger] targets[j] < edges.len(),
        forall|j: int| 0 <= j < targets.len() ==> follows(edges, stack, #[trigger] targets[j]),
    ensures
        visit_all(edges, targets, done, stack).cycle matches Some(cycle) ==> closed_walk(
            edges,
            cycle,
        ),
    decreases edges.len() + 1 - stack.len(), 1 + targets.len(),
{
    if targets.len() > 0 {
        let before = visit_all(edges, targets.drop_last(), done, stack);
        assert forall|j: int| 0 <= j < targets.drop_last().len() implies #[trigger] targets.drop_last()[j]
            < edges.len() && follows(edges, stack, targets.drop_last()[j]) by {
            assert(targets.drop_last()[j] == targets[j]);
        }
        lemma_visit_all_cycle(edges, targets.drop_last(), done, stack);
        if before.cycle is None {
            assert(targets.last() == targets[targets.len() - 1]);
            lemma_visit_cycle(edges, targets.last(), before.done, stack);
        }
    }
}

/// Whether `longer` begins with `shorter`.
pub open spec fn extends(shorter: Seq<usize>, longer: Seq<usize>) -> bool {
    shorter.len() <= longer.len() && longer.take(shorter.len() as int) == shorter
}

proof fn lemma_extends_contains(shorter: Seq<usize>, longer: Seq<usize>, node: usize)
    requires
        extends(shorter, longer),
        shorter.contains(node),
    ensures
        longer.contains(node),
{
    let k = choose|k: int| 0 <= k < shorter.len() && shorter[k] == node;
    assert(longer.take(shorter.len() as int)[k] == longer[k]);
}

/// Where the search meets no cycle, the services that are done stay in order,
/// and the visited service is one of them.
proof fn lemma_visit_done(
    edges: Seq<Seq<usize>>,
    node: usize,
    done: Seq<usize>,
    stack: Seq<usize>,
)
    requires
        edges_in_range(edges),
        stack_ok(edges, stack),
        node < edges.len(),
        follows(edges, stack, node),
        ordered(edges, done),
        visit(edges, node, done, stack).cycle is None,
    ensures
        ordered(edges, visit(edges, node, done, stack).done),
        extends(done, visit(edges, node, done, stack).done),
        visit(edges, node, done, stack).done.contains(node),
    decreases edges.len() + 1 - stack.len(), 0nat,
{
    if done.contains(node) {
        assert(done.take(done.len() as int) =~= done);
    } else {
        lemma_stack_room(edges, stack, node);
        lemma_stack_push(edges, stack, node);
        let inner = visit_all(edges, edges[node as int], done, stack.push(node));
        lemma_visit_all_done(edges, edges[node as int], done, stack.push(node));
        let after = inner.done.push(node);
        assert(after[after.len() - 1] == node);
        assert(after.take(done.len() as int) =~= inner.done.take(done.len() as int));
        assert forall|k: int, j: int|
            0 <= k < after.len() && 0 <= j < edges[after[k] as int].len() implies after.take(
            k,
        ).contains(#[trigger] edges[after[k] as int][j]) by {
            if k < inner.done.len() {
                assert(after[k] == inner.done[k]);
                assert(inner.done.take(k).contains(edges[inner.done[k] as int][j]));
                assert(after.take(k) =~= inner.done.take(k));
            } else {
                assert(after.take(k) =~= inner.done);
                assert(inner.done.contains(edges[node as int][j]));
            }
        }
    }
}

proof fn lemma_visit_all_done(
    edges: Seq<Seq<usize>>,
    targets: Seq<usize>,
    done: Seq<usize>,
    stack: Seq<usize>,
)
    requires
        edges_in_range(edges),
        stack_ok(edges, stack),
        forall|j: int| 0 <= j < targets.len() ==> #[trigger] targets[j] < edges.len(),
        forall|j: int| 0 <= j < targets.len() ==> follows(edges, stack, #[trigger] targets[j]),
        ordered(edges, done),
        visit_all(edges, targets, done, stack).cycle is None,
    ensures
        ordered(edges, visit_all(edges, targets, done, stack).done),
        extends(done, visit_all(edges, targets, done, stack).done),
        forall|j: int|
            0 <= j < targets.len() ==> visit_all(edges, targets, done, stack).done.contains(
                #[trigger] targets[j],
            ),
    decreases edges.len() + 1 - stack.len(), 1 + targets.len(),
{
    if targets.len() == 0 {
        assert(done.take(done.len() as int) =~= done);
    } else {
        let init = targets.drop_last();
        let before = visit_all(edges, init, done, stack);
        assert forall|j: int| 0 <= j < init.len() implies #[trigger] init[j] < edges.len()
            && follows(edges, stack, init[j]) by {
            assert(init[j] == targets[j]);
        }
        assert(before.cycle is None);
        lemma_visit_all_done(edges, init, done, stack);
        assert(targets.last() == targets[targets.len() - 1]);
        lemma_visit_done(edges, targets.last(), before.done, stack);
        let after = visit(edges, targets.last(), before.done, stack).done;
        assert(after.take(done.len() as int) =~= before.done.take(done.len() as int)) by {
            assert forall|k: int| 0 <= k < done.len() implies after[k] == before.done[k] by {
                assert(after.take(before.done.len() as int)[k] == before.done[k]);
            }
        }
        assert forall|j: int| 0 <= j < targets.len() implies after.contains(
            #[trigger] targets[j],
        ) by {
            if j < init.len() {
                assert(init[j] == targets[j]);
                lemma_extends_contains(before.done, after, targets[j]);
            }
        }
    }
}

/// Services that stand in order can be walked only towards the front.
proof fn lemma_ordered_no_closed_walk(edges: Seq<Seq<usize>>, done: Seq<usize>, walk: Seq<usize>)
    requires
        ordered(edges, done),
        done.contains(walk[0]),
    ensures
        !closed_walk(edges, walk),
{
    if closed_walk(edges, walk) {
        let first = lemma_first_place(done, walk[0]);
        lemma_walk_front(edges, done, walk, walk.len() - 1, first);
    }
}

/// The first place of a service that is done.
proof fn lemma_first_place(done: Seq<usize>, node: usize) -> (place: int)
    requires
        done.contains(node),
    ensures
        0 <= place < done.len(),
        done[place] == node,
        !done.take(place).contains(node),
    decreases done.len(),
{
    let k = choose|k: int| 0 <= k < done.len() && done[k] == node;
    if done.take(k).contains(node) {
        let place = lemma_first_place(done.take(k), node);
        assert(done.take(k).take(place) =~= done.take(place));
        place
    } else {
        k
    }
}

/// After `steps` steps of a walk that begins at place `first`, the walk stands
/// at an earlier place.
proof fn lemma_walk_front(
    edges: Seq<Seq<usize>>,
    done: Seq<usize>,
    walk: Seq<usize>,
    steps: int,
    first: int,
)
    requires
        ordered(edges, done),
        closed_walk(edges, walk),
        0 <= first < done.len(),
        done[first] == walk[0],
        0 <= steps < walk.len(),
    ensures
        steps == 0 || done.take(first).contains(walk[steps]),
    decreases steps,
{
    if steps > 0 {
        lemma_walk_front(edges, done, walk, steps - 1, first);
        let from = walk[steps - 1];
        let place = if steps == 1 {
            first
        } else {
            let k = choose|k: int| 0 <= k < done.take(first).len() && done.take(first)[k] == from;
            k
        };
        assert(0 <= place <= first && done[place] == from);
        assert(edges[walk[steps - 1] as int].contains(walk[steps]));
        let j = choose|j: int|
            0 <= j < edges[from as int].len() && edges[from as int][j] == walk[steps];
        assert(done.take(place).contains(edges[done[place] as int][j]));
        let m = choose|m: int| 0 <= m < done.take(place).len() && done.take(place)[m] == walk[steps];
        assert(done.take(first)[m] == walk[steps]);
    }
}

/// Once a cycle is met, nothing after it matters.
proof fn lemma_visit_all_prefix(
    edges: Seq<Seq<usize>>,
    targets: Seq<usize>,
    upto: int,
    done: Seq<usize>,
    stack: Seq<usize>,
)
    requires
        0 <= upto <= targets.len(),
        visit_all(edges, targets.take(upto), done, stack).cycle is Some,
    ensures
        visit_all(edges, targets, done, stack) == visit_all(edges, targets.take(upto), done, stack),
    decreases targets.len() - upto,
{
    if upto == targets.len() {
        assert(targets.take(upto) =~= targets);
    } else {
        assert(targets.take(upto + 1).drop_last() =~= targets.take(upto));
        lemma_visit_all_prefix(edges, targets, upto + 1, done, stack);
    }
}

// ---------------------------------------------------------------------------
// Validation
// ---------------------------------------------------------------------------

/// The lists of a list of lists.
pub open spec fn lists(rows: Seq<Vec<usize>>) -> Seq<Seq<usize>> {
    Seq::new(rows.len(), |i: int| rows[i]@)
}

/// The place of `wanted` in `items`, where it stands there.
fn place_of(items: &Vec<usize>, wanted: usize) -> (place: Option<usize>)
    ensures
        match place {
            Some(at) => at < items@.len() && items@[at as int] == wanted,
            None => !items@.contains(wanted),
        },
{
    for i in 0..items.len()
        invariant
            forall|j: int| 0 <= j < i ==> items@[j] != wanted,
    {
        if items[i] == wanted {
            return Some(i);
        }
    }
    None
}

/// Visits one service and what it depends on. Returns the cycle that was met.
fn visit_service(
    edges: &Vec<Vec<usize>>,
    node: usize,
    done: &mut Vec<usize>,
    stack: &mut Vec<usize>,
) -> (result: Result<(), Vec<usize>>)
    requires
        edges_in_range(lists(edges@)),
        stack_ok(lists(edges@), old(stack)@),
        node < edges@.len(),
        follows(lists(edges@), old(stack)@, node),
    ensures
        match result {
            Ok(_) => {
                &&& visit(lists(edges@), node, old(done)@, old(stack)@).cycle is None
                &&& visit(lists(edges@), node, old(done)@, old(stack)@).done == final(done)@
                &&& final(stack)@ == old(stack)@
            },
            Err(cycle) => visit(lists(edges@), node, old(done)@, old(stack)@).cycle == Some(
                cycle@,
            ),
        },
    decreases edges@.len() - old(stack)@.len(),
{
    let ghost graph = lists(edges@);
    let ghost before_done = done@;
    let ghost before_stack = stack@;
    if place_of(done, node).is_some() {
        return Ok(());
    }
    if let Some(start) = place_of(stack, node) {
        let mut cycle: Vec<usize> = Vec::new();
        let mut i: usize = start;
        while i < stack.len()
            invariant
                start <= i <= stack@.len(),
                cycle@ == stack@.subrange(start as int, i as int),
            decreases stack@.len() - i,
        {
            cycle.push(stack[i]);
            i += 1;
            assert(stack@.subrange(start as int, i as int) =~= stack@.subrange(
                start as int,
                i - 1,
            ).push(stack@[i - 1]));
        }
        cycle.push(node);
        assert(stack@.index_of(node) == start) by {
            let k = stack@.index_of(node);
            assert(0 <= k < stack@.len() && stack@[k] == node);
        }
        assert(cycle@ =~= stack@.skip(start as int).push(node));
        return Err(cycle);
    }
    proof {
        lemma_stack_room(graph, stack@, node);
        lemma_stack_push(graph, stack@, node);
    }
    stack.push(node);
    let ghost path = before_stack.push(node);
    let count: usize = edges[node].len();
    let mut j: usize = 0;
    let ghost targets = graph[node as int];
    assert(targets.take(0) =~= Seq::empty());
    while j < count
        invariant
            graph == lists(edges@),
            targets == graph[node as int],
            targets == edges@[node as int]@,
            node < edges@.len(),
            j <= count == targets.len(),
            edges_in_range(graph),
            stack@ == path,
            path.len() == before_stack.len() + 1,
            before_stack.len() < edges@.len(),
            before_stack == old(stack)@,
            path.last() == node,
            stack_ok(graph, path),
            !before_done.contains(node),
            !before_stack.contains(node),
            path == before_stack.push(node),
            before_done == old(done)@,
            visit_all(graph, targets.take(j as int), before_done, path).cycle is None,
            visit_all(graph, targets.take(j as int), before_done, path).done == done@,
        decreases count - j,
    {
        let next = edges[node][j];
        assert(next == graph[node as int][j as int]);
        assert(graph[node as int].contains(next));
        assert(targets.take(j + 1).drop_last() =~= targets.take(j as int));
        assert(targets.take(j + 1).last() == next);
        match visit_service(edges, next, done, stack) {
            Ok(_) => {},
            Err(cycle) => {
                proof {
                    lemma_visit_all_prefix(graph, targets, j + 1, before_done, path);
                }
                return Err(cycle);
            },
        }
        j += 1;
    }
    assert(targets.take(j as int) =~= targets);
    stack.pop();
    assert(stack@ =~= before_stack);
    done.push(node);
    Ok(())
}

/// The position of the last service called `name`.
fn position_of(services: &Vec<(String, ServiceConfig)>, name: &str) -> (found: Option<usize>)
    ensures
        match found {
            Some(at) => at == position(service_names(services@), name@) && at < services@.len(),
            None => position(service_names(services@), name@) == -1,
        },
{
    let ghost names = service_names(services@);
    let mut i: usize = services.len();
    assert(names.take(i as int) =~= names);
    while i > 0
        invariant
            i <= services@.len(),
            names == service_names(services@),
            position(names.take(i as int), name@) == position(names, name@),
        decreases i,
    {
        assert(names.take(i as int).drop_last() =~= names.take(i - 1));
        assert(names.take(i as int).last() == services@[i - 1].0@);
        i -= 1;
        if same(&services[i].0, name) {
            return Some(i);
        }
    }
    None
}

proof fn lemma_first_unknown_is(
    names: Seq<Seq<char>>,
    wanted: Seq<Seq<Seq<char>>>,
    i: int,
    j: int,
)
    requires
        first_unknown(names, wanted, i, j),
    ensures
        graph_error(names, wanted) == Some(
            DockerErrorView::UnknownDependency { service: names[i], dependency: wanted[i][j] },
        ),
{
    assert(unknown_at(names, wanted, i, j));
    let (a, b) = choose|a: int, b: int| first_unknown(names, wanted, a, b);
    assert(first_unknown(names, wanted, a, b));
    assert(unknown_at(names, wanted, a, b));
    assert(a == i && b == j);
}

/// Known dependencies give a graph whose edges lead to services.
proof fn lemma_edges(names: Seq<Seq<char>>, wanted: Seq<Seq<Seq<char>>>)
    requires
        all_known(names, wanted),
        wanted.len() == names.len(),
        names.len() <= usize::MAX,
    ensures
        edges_in_range(graph_edges(names, wanted)),
        graph_edges(names, wanted).len() == names.len(),
        forall|i: int|
            0 <= i < names.len() ==> #[trigger] graph_roots(names)[i] < names.len(),
        forall|i: int, j: int|
            0 <= i < names.len() && 0 <= j < wanted[i].len() ==> 0 <= #[trigger] position(
                names,
                wanted[i][j],
            ) < names.len(),
{
    let edges = graph_edges(names, wanted);
    assert forall|i: int, j: int| 0 <= i < names.len() && 0 <= j < wanted[i].len() implies 0
        <= #[trigger] position(names, wanted[i][j]) < names.len() by {
        assert(!unknown_at(names, wanted, i, j));
        lemma_position(names, wanted[i][j]);
    }
    assert forall|i: int| 0 <= i < names.len() implies #[trigger] graph_roots(names)[i]
        < names.len() by {
        lemma_position(names, names[i]);
    }
    assert forall|i: int, j: int|
        0 <= i < edges.len() && 0 <= j < edges[i].len() implies #[trigger] edges[i][j]
        < edges.len() by {
        lemma_position(names, names[i]);
        let k = position(names, names[i]);
        assert(names.contains(names[i]));
        assert(0 <= position(names, wanted[k][j]) < names.len());
    }
}

/// Checks the `depends_on` graph before anything boots: every dependency has to
/// be a service, and no service may depend on itself, directly or through
/// others.
pub fn validate_dependency_graph(services: &Vec<(String, ServiceConfig)>) -> (result: Result<
    (),
    DockerModuleError,
>)
    ensures
        match result {
            Ok(_) => graph_error(
                service_names(services@),
                dependency_names(services@),
            ) is None,
            Err(error) => graph_error(service_names(services@), dependency_names(services@))
                == Some(error@),
        },
{
    let ghost names = service_names(services@);
    let ghost wanted = dependency_names(services@);
    let total: usize = services.len();
    // The places of the dependencies of each service.
    let mut places: Vec<Vec<usize>> = Vec::new();
    let mut i: usize = 0;
    while i < total
        invariant
            i <= total == services@.len(),
            names == service_names(services@),
            wanted == dependency_names(services@),
            places@.len() == i,
            forall|a: int, b: int| #[trigger] unknown_at(names, wanted, a, b) ==> a >= i,
            forall|a: int|
                0 <= a < i ==> #[trigger] lists(places@)[a] == Seq::new(
                    wanted[a].len(),
                    |b: int| position(names, wanted[a][b]) as usize,
                ),
        decreases total - i,
    {
        let found = services[i].1.dependencies();
        let ghost own = wanted[i as int];
        assert(own =~= Seq::new(found@.len(), |j: int| found@[j].0@)) by {
            let flat = dependencies_of(services@[i as int].1.depends_on);
            assert(conditioned(found@) == flat);
            assert forall|j: int| 0 <= j < flat.len() implies flat[j].0 == found@[j].0@ by {
                assert(conditioned(found@)[j] == flat[j]);
            }
        }
        let mut row: Vec<usize> = Vec::new();
        let mut j: usize = 0;
        while j < found.len()
            invariant
                i < total == services@.len(),
                j <= found@.len(),
                names == service_names(services@),
                wanted == dependency_names(services@),
                own == wanted[i as int],
                own == Seq::new(found@.len(), |k: int| found@[k].0@),
                forall|a: int, b: int| #[trigger] unknown_at(names, wanted, a, b) ==> a > i || (a
                    == i && b >= j),
                row@.len() == j,
                forall|b: int|
                    0 <= b < j ==> #[trigger] row@[b] == position(names, own[b]) as usize,
            decreases found@.len() - j,
        {
            let name = &found[j].0;
            proof {
                lemma_position(names, name@);
                assert(own[j as int] == name@);
            }
            match position_of(services, name) {
                Some(at) => {
                    row.push(at);
                    assert(!unknown_at(names, wanted, i as int, j as int));
                },
                None => {
                    proof {
                        assert(unknown_at(names, wanted, i as int, j as int));
                        assert(first_unknown(names, wanted, i as int, j as int));
                        lemma_first_unknown_is(names, wanted, i as int, j as int);
                    }
                    return Err(
                        DockerModuleError::UnknownDependency {
                            service: services[i].0.clone(),
                            dependency: name.clone(),
                        },
                    );
                },
            }
            j += 1;
        }
        assert(row@ =~= Seq::new(own.len(), |b: int| position(names, own[b]) as usize));
        let ghost earlier = lists(places@);
        places.push(row);
        assert forall|a: int| 0 <= a < i + 1 implies #[trigger] lists(places@)[a] == Seq::new(
            wanted[a].len(),
            |b: int| position(names, wanted[a][b]) as usize,
        ) by {
            if a < i {
                assert(lists(places@)[a] == earlier[a]);
            }
        }
        assert forall|a: int, b: int| #[trigger] unknown_at(names, wanted, a, b) implies a >= i
            + 1 by {}
        i += 1;
    }
    assert(all_known(names, wanted)) by {
        assert forall|a: int, b: int| !(#[trigger] unknown_at(names, wanted, a, b)) by {
            if unknown_at(names, wanted, a, b) {
                assert(a >= total);
            }
        }
    }
    let ghost edges = graph_edges(names, wanted);
    let ghost roots = graph_roots(names);
    proof {
        lemma_edges(names, wanted);
    }
    let mut graph: Vec<Vec<usize>> = Vec::new();
    let mut starts: Vec<usize> = Vec::new();
    let mut n: usize = 0;
    while n < total
        invariant
            n <= total == services@.len() == places@.len(),
            names == service_names(services@),
            edges == graph_edges(names, wanted),
            roots == graph_roots(names),
            wanted.len() == total,
            forall|a: int|
                0 <= a < total ==> #[trigger] lists(places@)[a] == Seq::new(
                    wanted[a].len(),
                    |b: int| position(names, wanted[a][b]) as usize,
                ),
            graph@.len() == n,
            starts@.len() == n,
            forall|a: int| 0 <= a < n ==> #[trigger] graph@[a]@ == edges[a],
            forall|a: int| 0 <= a < n ==> #[trigger] starts@[a] == roots[a],
        decreases total - n,
    {
        proof {
            lemma_position(names, names[n as int]);
            assert(names.contains(names[n as int]));
        }
        match position_of(services, &services[n].0) {
            Some(at) => {
                let row = &places[at];
                let mut copy: Vec<usize> = Vec::new();
                let mut m: usize = 0;
                while m < row.len()
                    invariant
                        m <= row@.len(),
                        copy@ == row@.take(m as int),
                    decreases row@.len() - m,
                {
                    copy.push(row[m]);
                    m += 1;
                    assert(row@.take(m as int) =~= row@.take(m - 1).push(row@[m - 1]));
                }
                assert(lists(places@)[at as int] == row@);
                assert(copy@ =~= edges[n as int]);
                graph.push(copy);
                starts.push(at);
            },
            None => {
                assert(false);
            },
        }
        n += 1;
    }
    assert(lists(graph@) =~= edges);
    assert(starts@ =~= roots);
    let mut done: Vec<usize> = Vec::new();
    let mut k: usize = 0;
    assert(roots.take(0) =~= Seq::empty());
    while k < total
        invariant
            k <= total == services@.len() == starts@.len(),
            names == service_names(services@),
            wanted == dependency_names(services@),
            all_known(names, wanted),
            edges == graph_edges(names, wanted),
            roots == graph_roots(names),
            lists(graph@) == edges,
            starts@ == roots,
            edges_in_range(edges),
            edges.len() == total,
            forall|a: int| 0 <= a < total ==> #[trigger] roots[a] < total,
            visit_all(edges, roots.take(k as int), Seq::empty(), Seq::empty()).cycle is None,
            visit_all(edges, roots.take(k as int), Seq::empty(), Seq::empty()).done == done@,
        decreases total - k,
    {
        let mut stack: Vec<usize> = Vec::new();
        assert(stack@ =~= Seq::<usize>::empty());
        assert(roots.take(k + 1).drop_last() =~= roots.take(k as int));
        assert(roots.take(k + 1).last() == starts@[k as int]);
        assert(roots[k as int] < total);
        match visit_service(&graph, starts[k], &mut done, &mut stack) {
            Ok(_) => {},
            Err(cycle) => {
                proof {
                    lemma_visit_all_prefix(edges, roots, k + 1, Seq::empty(), Seq::empty());
                    lemma_visit_all_cycle(edges, roots, Seq::empty(), Seq::empty());
                }
                let mut cycle_names: Vec<String> = Vec::new();
                let mut c: usize = 0;
                while c < cycle.len()
                    invariant
                        c <= cycle@.len(),
                        names == service_names(services@),
                        edges.len() == services@.len(),
                        closed_walk(edges, cycle@),
                        cycle_names@.len() == c,
                        forall|a: int|
                            0 <= a < c ==> #[trigger] cycle_names@[a]@ == names[cycle@[a] as int],
                    decreases cycle@.len() - c,
                {
                    assert(cycle@[c as int] < edges.len());
                    cycle_names.push(services[cycle[c]].0.clone());
                    c += 1;
                }
                assert(text::texts(cycle_names@) =~= names_at(names, cycle@));
                return Err(DockerModuleError::DependencyCycle(join_texts(&cycle_names, " -> ")));
            },
        }
        k += 1;
    }
    assert(roots.take(k as int) =~= roots);
    Ok(())
}

// ---------------------------------------------------------------------------
// Laws of the dependency graph
// ---------------------------------------------------------------------------

/// Whether the service called `dependent` depends on `dependency`.
pub open spec fn depends(
    names: Seq<Seq<char>>,
    wanted: Seq<Seq<Seq<char>>>,
    dependent: Seq<char>,
    dependency: Seq<char>,
) -> bool {
    names.contains(dependent) && wanted[position(names, dependent)].contains(dependency)
}

/// A chain of services, each a dependent of the next, that ends with the
/// service it began with.
pub open spec fn dependency_loop(
    names: Seq<Seq<char>>,
    wanted: Seq<Seq<Seq<char>>>,
    chain: Seq<Seq<char>>,
) -> bool {
    &&& chain.len() >= 2
    &&& chain[0] == chain.last()
    &&& forall|k: int|
        0 < k < chain.len() ==> depends(names, wanted, #[trigger] chain[k - 1], chain[k])
}

/// A closed walk over the positions is a loop of the names.
proof fn lemma_walk_to_loop(names: Seq<Seq<char>>, wanted: Seq<Seq<Seq<char>>>, walk: Seq<usize>)
    requires
        wanted.len() == names.len(),
        names.len() <= usize::MAX,
        all_known(names, wanted),
        closed_walk(graph_edges(names, wanted), walk),
    ensures
        dependency_loop(names, wanted, names_at(names, walk)),
{
    let edges = graph_edges(names, wanted);
    let chain = names_at(names, walk);
    lemma_edges(names, wanted);
    assert forall|k: int| 0 < k < chain.len() implies depends(
        names,
        wanted,
        #[trigger] chain[k - 1],
        chain[k],
    ) by {
        let from = walk[k - 1];
        assert(from < edges.len());
        assert(edges[walk[k - 1] as int].contains(walk[k]));
        let own_at = position(names, names[from as int]);
        lemma_position(names, names[from as int]);
        assert(names.contains(names[from as int]));
        let own = wanted[own_at];
        let j = choose|j: int| 0 <= j < edges[from as int].len() && edges[from as int][j] == walk[k];
        assert(0 <= position(names, wanted[own_at][j]) < names.len());
        lemma_position(names, own[j]);
        assert(names[walk[k] as int] == own[j]);
        assert(own.contains(own[j]));
    }
}

/// A loop of the names is a closed walk over the positions.
proof fn lemma_loop_to_walk(
    names: Seq<Seq<char>>,
    wanted: Seq<Seq<Seq<char>>>,
    chain: Seq<Seq<char>>,
) -> (walk: Seq<usize>)
    requires
        wanted.len() == names.len(),
        names.len() <= usize::MAX,
        all_known(names, wanted),
        dependency_loop(names, wanted, chain),
    ensures
        closed_walk(graph_edges(names, wanted), walk),
        walk[0] == position(names, chain[0]) as usize,
        names.contains(chain[0]),
{
    let edges = graph_edges(names, wanted);
    let walk = Seq::new(chain.len(), |k: int| position(names, chain[k]) as usize);
    lemma_edges(names, wanted);
    assert(depends(names, wanted, chain[1 - 1], chain[1]));
    assert forall|k: int| 0 <= k < chain.len() implies names.contains(#[trigger] chain[k]) by {
        if k + 1 < chain.len() {
            assert(depends(names, wanted, chain[(k + 1) - 1], chain[k + 1]));
        } else {
            assert(depends(names, wanted, chain[1 - 1], chain[1]));
        }
    }
    assert forall|k: int| 0 <= k < walk.len() implies #[trigger] walk[k] < edges.len() by {
        lemma_position(names, chain[k]);
        assert(names.contains(chain[k]));
    }
    assert forall|k: int| 0 < k < walk.len() implies edges[#[trigger] walk[k - 1] as int].contains(
        walk[k],
    ) by {
        assert(depends(names, wanted, chain[k - 1], chain[k]));
        let at = position(names, chain[k - 1]);
        lemma_position(names, chain[k - 1]);
        let own = wanted[at];
        let j = choose|j: int| 0 <= j < own.len() && own[j] == chain[k];
        assert(names[at] == chain[k - 1]);
        assert(edges[at][j] == walk[k]);
    }
    walk
}

/// What the search leaves behind where there is no cycle: the positions of all
/// services, each after everything that it depends on.
proof fn lemma_search_done(names: Seq<Seq<char>>, wanted: Seq<Seq<Seq<char>>>)
    requires
        wanted.len() == names.len(),
        names.len() <= usize::MAX,
        all_known(names, wanted),
        graph_search(names, wanted).cycle is None,
    ensures
        ordered(graph_edges(names, wanted), graph_search(names, wanted).done),
        forall|name: Seq<char>| #[trigger]
            names.contains(name) ==> graph_search(names, wanted).done.contains(
                position(names, name) as usize,
            ),
{
    let edges = graph_edges(names, wanted);
    let roots = graph_roots(names);
    lemma_edges(names, wanted);
    assert(ordered(edges, Seq::<usize>::empty()));
    assert(stack_ok(edges, Seq::<usize>::empty()));
    assert forall|j: int| 0 <= j < roots.len() implies #[trigger] roots[j] < edges.len() by {
        assert(graph_roots(names)[j] < names.len());
    }
    lemma_visit_all_done(edges, roots, Seq::empty(), Seq::empty());
    assert forall|name: Seq<char>| #[trigger] names.contains(name) implies graph_search(
        names,
        wanted,
    ).done.contains(position(names, name) as usize) by {
        let i = choose|i: int| 0 <= i < names.len() && names[i] == name;
        assert(roots[i] == position(names, name) as usize);
    }
}

/// A dependency graph is accepted exactly where every dependency is a service
/// and no chain of dependencies leads a service back to itself.
pub proof fn accepted_iff_known_and_without_loops(
    names: Seq<Seq<char>>,
    wanted: Seq<Seq<Seq<char>>>,
)
    requires
        wanted.len() == names.len(),
        names.len() <= usize::MAX,
    ensures
        graph_error(names, wanted) is None <==> (all_known(names, wanted) && (forall|
            chain: Seq<Seq<char>>,
        | !(#[trigger] dependency_loop(names, wanted, chain)))),
{
    if all_known(names, wanted) {
        let edges = graph_edges(names, wanted);
        let roots = graph_roots(names);
        lemma_edges(names, wanted);
        match graph_search(names, wanted).cycle {
            None => {
                lemma_search_done(names, wanted);
                assert forall|chain: Seq<Seq<char>>| !(#[trigger] dependency_loop(
                    names,
                    wanted,
                    chain,
                )) by {
                    if dependency_loop(names, wanted, chain) {
                        let walk = lemma_loop_to_walk(names, wanted, chain);
                        lemma_ordered_no_closed_walk(
                            edges,
                            graph_search(names, wanted).done,
                            walk,
                        );
                    }
                }
            },
            Some(cycle) => {
                assert(stack_ok(edges, Seq::<usize>::empty()));
                assert forall|j: int| 0 <= j < roots.len() implies #[trigger] roots[j]
                    < edges.len() by {
                    assert(graph_roots(names)[j] < names.len());
                }
                lemma_visit_all_cycle(edges, roots, Seq::empty(), Seq::empty());
                lemma_walk_to_loop(names, wanted, cycle);
            },
        }
    }
}

/// A cycle that is reported names the services of a dependency loop, in order.
pub proof fn reported_cycle_is_a_loop(names: Seq<Seq<char>>, wanted: Seq<Seq<Seq<char>>>)
    requires
        wanted.len() == names.len(),
        names.len() <= usize::MAX,
    ensures
        graph_error(names, wanted) matches Some(DockerErrorView::DependencyCycle(text)) ==> exists|
            chain: Seq<Seq<char>>,
        | #[trigger]
            dependency_loop(names, wanted, chain) && text == text::join(chain, " -> "@),
{
    if let Some(DockerErrorView::DependencyCycle(text)) = graph_error(names, wanted) {
        let edges = graph_edges(names, wanted);
        let roots = graph_roots(names);
        lemma_edges(names, wanted);
        assert(stack_ok(edges, Seq::<usize>::empty()));
        assert forall|j: int| 0 <= j < roots.len() implies #[trigger] roots[j] < edges.len() by {
            assert(graph_roots(names)[j] < names.len());
        }
        lemma_visit_all_cycle(edges, roots, Seq::empty(), Seq::empty());
        let cycle = graph_search(names, wanted).cycle->0;
        lemma_walk_to_loop(names, wanted, cycle);
        assert(dependency_loop(names, wanted, names_at(names, cycle)));
    }
}

proof fn lemma_first_unknown_exists(
    names: Seq<Seq<char>>,
    wanted: Seq<Seq<Seq<char>>>,
    i: int,
    j: int,
) -> (found: (int, int))
    requires
        unknown_at(names, wanted, i, j),
    ensures
        first_unknown(names, wanted, found.0, found.1),
    decreases i, j,
{
    if exists|a: int, b: int| #[trigger]
        unknown_at(names, wanted, a, b) && !(i < a || (i == a && j <= b)) {
        let (a, b) = choose|a: int, b: int| #[trigger]
            unknown_at(names, wanted, a, b) && !(i < a || (i == a && j <= b));
        lemma_first_unknown_exists(names, wanted, a, b)
    } else {
        (i, j)
    }
}

/// An unknown dependency that is reported is the first one in the order of the
/// services and, within a service, in the order of its dependencies.
pub proof fn reported_unknown_is_the_first(names: Seq<Seq<char>>, wanted: Seq<Seq<Seq<char>>>)
    ensures
        graph_error(names, wanted) matches Some(
            DockerErrorView::UnknownDependency { service, dependency },
        ) ==> exists|i: int, j: int| #[trigger]
            first_unknown(names, wanted, i, j) && service == names[i] && dependency
                == wanted[i][j],
{
    if !all_known(names, wanted) {
        let (i, j) = choose|i: int, j: int| unknown_at(names, wanted, i, j);
        let found = lemma_first_unknown_exists(names, wanted, i, j);
        lemma_first_unknown_is(names, wanted, found.0, found.1);
    }
}

/// An accepted graph cannot lock up: as long as some service has not started,
/// there is one that has not started and whose dependencies all have.
pub proof fn accepted_graph_can_always_go_on(
    names: Seq<Seq<char>>,
    wanted: Seq<Seq<Seq<char>>>,
    started: Set<Seq<char>>,
    waiting: Seq<char>,
)
    requires
        wanted.len() == names.len(),
        names.len() <= usize::MAX,
        graph_error(names, wanted) is None,
        names.contains(waiting),
        !started.contains(waiting),
    ensures
        exists|next: Seq<char>| #[trigger]
            names.contains(next) && !started.contains(next) && (forall|dependency: Seq<char>|
                depends(names, wanted, next, dependency) ==> started.contains(dependency)),
{
    let edges = graph_edges(names, wanted);
    let done = graph_search(names, wanted).done;
    lemma_search_done(names, wanted);
    lemma_edges(names, wanted);
    assert(done.contains(position(names, waiting) as usize));
    lemma_position(names, waiting);
    let k = choose|k: int| 0 <= k < done.len() && done[k] == position(names, waiting) as usize;
    assert(names[done[k] as int] == waiting);
    lemma_first_not_started(names, wanted, started, done, k);
}

proof fn lemma_first_not_started(
    names: Seq<Seq<char>>,
    wanted: Seq<Seq<Seq<char>>>,
    started: Set<Seq<char>>,
    done: Seq<usize>,
    k: int,
)
    requires
        wanted.len() == names.len(),
        names.len() <= usize::MAX,
        all_known(names, wanted),
        ordered(graph_edges(names, wanted), done),
        0 <= k < done.len(),
        !started.contains(names[done[k] as int]),
    ensures
        exists|next: Seq<char>| #[trigger]
            names.contains(next) && !started.contains(next) && (forall|dependency: Seq<char>|
                depends(names, wanted, next, dependency) ==> started.contains(dependency)),
    decreases k,
{
    let edges = graph_edges(names, wanted);
    lemma_edges(names, wanted);
    let next = names[done[k] as int];
    assert(done[k] < edges.len());
    assert(names.contains(next));
    lemma_position(names, next);
    if exists|dependency: Seq<char>|
        depends(names, wanted, next, dependency) && !started.contains(dependency) {
        let dependency = choose|dependency: Seq<char>|
            depends(names, wanted, next, dependency) && !started.contains(dependency);
        let at = position(names, next);
        let j = choose|j: int| 0 <= j < wanted[at].len() && wanted[at][j] == dependency;
        assert(edges[done[k] as int][j] == position(names, dependency) as usize);
        assert(done.take(k).contains(edges[done[k] as int][j]));
        let m = choose|m: int|
            0 <= m < done.take(k).len() && done.take(k)[m] == edges[done[k] as int][j];
        assert(0 <= position(names, wanted[at][j]) < names.len());
        lemma_position(names, dependency);
        assert(names[done[m] as int] == dependency);
        lemma_first_not_started(names, wanted, started, done, m);
    }
}

/// What a service depends on is taken as it is written: every name of a list,
/// which has to be started, and every entry of a mapping with its own condition.
pub proof fn dependencies_are_taken_as_written(
    names: Vec<String>,
    entries: Vec<(String, crate::docker::definitions::DependsOnEntry)>,
    i: int,
)
    ensures
        dependencies_of(None).len() == 0,
        dependencies_of(Some(DependsOn::List(names))).len() == names@.len(),
        0 <= i < names@.len() ==> dependencies_of(Some(DependsOn::List(names)))[i] == (
            names@[i]@,
            DependencyCondition::ServiceStarted,
        ),
        dependencies_of(Some(DependsOn::Mapping(entries))).len() == entries@.len(),
        0 <= i < entries@.len() ==> dependencies_of(Some(DependsOn::Mapping(entries)))[i] == (
            entries@[i].0@,
            entries@[i].1.condition,
        ),
{
}

/// The graph holds every service under its name with all that it depends on.
pub proof fn graph_holds_every_dependency(
    services: Seq<(String, ServiceConfig)>,
    i: int,
    j: int,
)
    requires
        0 <= i < services.len(),
        0 <= j < dependencies_of(services[i].1.depends_on).len(),
    ensures
        service_names(services).len() == services.len(),
        service_names(services)[i] == services[i].0@,
        dependency_names(services).len() == services.len(),
        dependency_names(services)[i].len() == dependencies_of(services[i].1.depends_on).len(),
        dependency_names(services)[i][j] == dependencies_of(services[i].1.depends_on)[j].0,
{
}

/// Services have names of their own: the position of a name is where it stands.
proof fn lemma_position_of(names: Seq<Seq<char>>, i: int)
    requires
        names.no_duplicates(),
        0 <= i < names.len(),
    ensures
        position(names, names[i]) == i,
{
    lemma_position(names, names[i]);
}

/// A service depends on what it lists, and on nothing else.
pub proof fn services_depend_on_what_they_list(
    names: Seq<Seq<char>>,
    wanted: Seq<Seq<Seq<char>>>,
    i: int,
    dependency: Seq<char>,
)
    requires
        names.no_duplicates(),
        wanted.len() == names.len(),
        0 <= i < names.len(),
    ensures
        depends(names, wanted, names[i], dependency) <==> exists|j: int|
            0 <= j < wanted[i].len() && #[trigger] wanted[i][j] == dependency,
{
    lemma_position_of(names, i);
    assert(names.contains(names[i]));
    if wanted[i].contains(dependency) {
        let j = choose|j: int| 0 <= j < wanted[i].len() && wanted[i][j] == dependency;
        assert(wanted[i][j] == dependency);
    }
}

/// A dependency that is no service is refused: the first service that lists one is
/// named, with the first one that it lists. Where all are services, none is named.
pub proof fn unknown_dependencies_are_refused(
    names: Seq<Seq<char>>,
    wanted: Seq<Seq<Seq<char>>>,
    i: int,
    j: int,
)
    requires
        wanted.len() == names.len(),
        0 <= i < wanted.len(),
        0 <= j < wanted[i].len(),
    ensures
        !names.contains(wanted[i][j]) && (forall|b: int|
            0 <= b < j ==> names.contains(#[trigger] wanted[i][b])) && (forall|a: int, b: int|
            0 <= a < i && 0 <= b < wanted[a].len() ==> names.contains(#[trigger] wanted[a][b]))
            ==> graph_error(names, wanted) == Some(
            DockerErrorView::UnknownDependency { service: names[i], dependency: wanted[i][j] },
        ),
        graph_error(names, wanted) is None ==> names.contains(wanted[i][j]),
        graph_error(names, wanted) matches Some(DockerErrorView::DependencyCycle(_))
            ==> names.contains(wanted[i][j]),
{
    if !names.contains(wanted[i][j]) {
        assert(unknown_at(names, wanted, i, j));
    }
    if !names.contains(wanted[i][j]) && (forall|b: int|
        0 <= b < j ==> names.contains(#[trigger] wanted[i][b])) && (forall|a: int, b: int|
        0 <= a < i && 0 <= b < wanted[a].len() ==> names.contains(#[trigger] wanted[a][b])) {
        assert(first_unknown(names, wanted, i, j)) by {
            assert forall|a: int, b: int| #[trigger] unknown_at(names, wanted, a, b) implies i < a
                || (i == a && j <= b) by {
                if a < i {
                    assert(names.contains(wanted[a][b]));
                } else if a == i && b < j {
                    assert(names.contains(wanted[i][b]));
                }
            }
        }
        let (x, y) = choose|x: int, y: int| first_unknown(names, wanted, x, y);
        assert(first_unknown(names, wanted, x, y));
        assert(unknown_at(names, wanted, x, y));
        assert(unknown_at(names, wanted, i, j));
        assert(x == i && y == j);
    }
}

/// Services that depend on each other in a circle are refused, and so is one that
/// depends on itself.
pub proof fn circles_are_refused(
    names: Seq<Seq<char>>,
    wanted: Seq<Seq<Seq<char>>>,
    circle: Seq<int>,
)
    requires
        names.no_duplicates(),
        names.len() <= usize::MAX,
        wanted.len() == names.len(),
        circle.len() >= 2,
        circle[0] == circle.last(),
        forall|k: int| 0 <= k < circle.len() ==> 0 <= #[trigger] circle[k] < names.len(),
        forall|k: int|
            0 < k < circle.len() ==> wanted[#[trigger] circle[k - 1]].contains(names[circle[k]]),
    ensures
        graph_error(names, wanted) is Some,
{
    let chain = Seq::new(circle.len(), |k: int| names[circle[k]]);
    assert forall|k: int| 0 < k < chain.len() implies depends(
        names,
        wanted,
        #[trigger] chain[k - 1],
        chain[k],
    ) by {
        assert(0 <= circle[k - 1] < names.len());
        lemma_position_of(names, circle[k - 1]);
        assert(names.contains(chain[k - 1]));
    }
    assert(dependency_loop(names, wanted, chain));
    accepted_iff_known_and_without_loops(names, wanted);
}

/// Services that can be put in an order in which each comes behind all that it
/// depends on are accepted.
pub proof fn orderly_services_are_accepted(
    names: Seq<Seq<char>>,
    wanted: Seq<Seq<Seq<char>>>,
    place: spec_fn(Seq<char>) -> int,
)
    requires
        names.no_duplicates(),
        names.len() <= usize::MAX,
        wanted.len() == names.len(),
        forall|i: int, j: int|
            0 <= i < wanted.len() && 0 <= j < wanted[i].len() ==> names.contains(
                #[trigger] wanted[i][j],
            ) && place(wanted[i][j]) < place(names[i]),
    ensures
        graph_error(names, wanted) is None,
{
    assert(all_known(names, wanted));
    assert forall|chain: Seq<Seq<char>>| !(#[trigger] dependency_loop(names, wanted, chain)) by {
        if dependency_loop(names, wanted, chain) {
            lemma_places_fall(names, wanted, place, chain, chain.len() - 1);
        }
    }
    accepted_iff_known_and_without_loops(names, wanted);
}

proof fn lemma_places_fall(
    names: Seq<Seq<char>>,
    wanted: Seq<Seq<Seq<char>>>,
    place: spec_fn(Seq<char>) -> int,
    chain: Seq<Seq<char>>,
    k: int,
)
    requires
        wanted.len() == names.len(),
        forall|i: int, j: int|
            0 <= i < wanted.len() && 0 <= j < wanted[i].len() ==> names.contains(
                #[trigger] wanted[i][j],
            ) && place(wanted[i][j]) < place(names[i]),
        dependency_loop(names, wanted, chain),
        0 < k < chain.len(),
    ensures
        place(chain[k]) < place(chain[0]),
    decreases k,
{
    assert(depends(names, wanted, chain[k - 1], chain[k]));
    lemma_position(names, chain[k - 1]);
    let i = position(names, chain[k - 1]);
    let j = choose|j: int| 0 <= j < wanted[i].len() && wanted[i][j] == chain[k];
    assert(place(wanted[i][j]) < place(names[i]));
    if k > 1 {
        lemma_places_fall(names, wanted, place, chain, k - 1);
    }
}

} // verus!
