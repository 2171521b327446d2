//! Dependency graphs and their cycles.

use vstd::prelude::*;
use vstd::seq_lib::*;
use vstd::set_lib::*;

use super::ids::PlanItemId;
use crate::order::are_distinct;
use crate::text::same_text;
use crate::value::contents;

verus! {

/// Nodes by name, each with the names of the nodes that it depends on.
pub type Graph = Seq<(Seq<char>, Seq<Seq<char>>)>;

/// The names of the nodes.
pub open spec fn node_names(graph: Graph) -> Seq<Seq<char>> {
    Seq::new(graph.len(), |i: int| graph[i].0)
}

/// Whether one node depends directly on another.
pub open spec fn depends(graph: Graph, from: Seq<char>, to: Seq<char>) -> bool {
    exists|i: int| 0 <= i < graph.len() && (#[trigger] graph[i]).0 == from && graph[i].1.contains(to)
}

/// Whether every node of the path depends on the next one.
pub open spec fn is_path(graph: Graph, path: Seq<Seq<char>>) -> bool {
    forall|i: int| 0 <= i < path.len() - 1 ==> depends(graph, #[trigger] path[i], path[i + 1])
}

/// Whether a path of one step or more leads from a node back to it.
pub open spec fn is_cyclic(graph: Graph) -> bool {
    exists|path: Seq<Seq<char>>| #[trigger]
        is_path(graph, path) && path.len() >= 2 && path[0] == path.last()
}

/// Whether every node comes after all that it depends on.
pub open spec fn is_dependency_order(graph: Graph, order: Seq<Seq<char>>) -> bool {
    forall|i: int, to: Seq<char>|
        0 <= i < order.len() && #[trigger] depends(graph, order[i], to) ==> order.take(i).contains(
            to,
        )
}

/// A node of a graph.
pub struct Node<'a> {
    pub name: &'a str,
    pub depends_on: &'a Vec<PlanItemId>,
}

/// The graph that nodes make.
pub open spec fn graph_of(nodes: Seq<Node>) -> Graph {
    Seq::new(nodes.len(), |i: int| (nodes[i].name@, contents(nodes[i].depends_on@)))
}

spec fn names(list: Seq<&str>) -> Seq<Seq<char>> {
    Seq::new(list.len(), |i: int| list[i]@)
}

/// Along a path that begins at a node, dependencies come ever earlier.
proof fn lemma_earlier(
    graph: Graph,
    order: Seq<Seq<char>>,
    path: Seq<Seq<char>>,
    first: int,
    k: int,
)
    requires
        is_dependency_order(graph, order),
        is_path(graph, path),
        0 <= k < path.len(),
        0 <= first < order.len(),
        order[first] == path[0],
    ensures
        exists|at: int| 0 <= at <= first - k && at < order.len() && order[at] == path[k],
    decreases k,
{
    if k == 0 {
        assert(order[first] == path[0]);
    } else {
        lemma_earlier(graph, order, path, first, k - 1);
        let at = choose|at: int|
            0 <= at <= first - (k - 1) && at < order.len() && order[at] == path[k - 1];
        assert(depends(graph, path[k - 1], path[k - 1 + 1]));
        assert(depends(graph, order[at], path[k]));
        assert(order.take(at).contains(path[k]));
        let next = choose|next: int| 0 <= next < order.take(at).len() && order.take(at)[next]
            == path[k];
        assert(order[next] == path[k]);
    }
}

/// A graph whose nodes can be put in dependency order has no cycle.
pub proof fn ordered_graphs_are_acyclic(graph: Graph, order: Seq<Seq<char>>)
    requires
        is_dependency_order(graph, order),
        forall|i: int| 0 <= i < graph.len() ==> order.contains((#[trigger] graph[i]).0),
    ensures
        !is_cyclic(graph),
{
    if is_cyclic(graph) {
        let path = choose|path: Seq<Seq<char>>| #[trigger]
            is_path(graph, path) && path.len() >= 2 && path[0] == path.last();
        let start = 0int;
        assert(depends(graph, path[start], path[start + 1]));
        assert(order.contains(path[0]));
        let at = choose|at: int| 0 <= at < order.len() && order[at] == path[0];
        lemma_first(order, path[0], at);
        let first = choose|first: int|
            0 <= first < order.len() && order[first] == path[0] && !order.take(first).contains(
                path[0],
            );
        lemma_earlier(graph, order, path, first, path.len() - 1);
        let back = choose|back: int|
            0 <= back <= first - (path.len() - 1) && back < order.len() && order[back]
                == path[path.len() - 1];
        assert(order.take(first)[back] == path[0]);
    }
}

proof fn lemma_first(order: Seq<Seq<char>>, name: Seq<char>, at: int)
    requires
        0 <= at < order.len(),
        order[at] == name,
    ensures
        exists|first: int|
            0 <= first < order.len() && order[first] == name && !order.take(first).contains(name),
    decreases at,
{
    if order.take(at).contains(name) {
        let before = choose|before: int| 0 <= before < at && order.take(at)[before] == name;
        assert(order[before] == name);
        lemma_first(order, name, before);
    }
}

/// Where a node stands.
fn find_node<'a>(nodes: &Vec<Node<'a>>, name: &str) -> (r: Option<usize>)
    ensures
        match r {
            Some(i) => i < nodes@.len() && nodes@[i as int].name@ == name@,
            None => forall|i: int| 0 <= i < nodes@.len() ==> (#[trigger] nodes@[i]).name@ != name@,
        },
{
    let mut i: usize = 0;
    while i < nodes.len()
        invariant
            i <= nodes@.len(),
            forall|k: int| 0 <= k < i ==> (#[trigger] nodes@[k]).name@ != name@,
        decreases nodes@.len() - i,
    {
        if same_text(nodes[i].name, name) {
            return Some(i);
        }
        i += 1;
    }
    None
}

/// Where a name stands in a list.
fn find_name(list: &Vec<&str>, name: &str) -> (r: Option<usize>)
    ensures
        match r {
            Some(i) => i < list@.len() && list@[i as int]@ == name@,
            None => !names(list@).contains(name@),
        },
{
    let mut i: usize = 0;
    while i < list.len()
        invariant
            i <= list@.len(),
            forall|k: int| 0 <= k < i ==> (#[trigger] list@[k])@ != name@,
        decreases list@.len() - i,
    {
        if same_text(list[i], name) {
            return Some(i);
        }
        i += 1;
    }
    None
}

/// Distinct names of nodes are no more than the nodes.
proof fn lemma_few_names(graph: Graph, active: Seq<Seq<char>>)
    requires
        active.no_duplicates(),
        forall|i: int| 0 <= i < active.len() ==> node_names(graph).contains(#[trigger] active[i]),
    ensures
        active.len() <= graph.len(),
{
    let all = node_names(graph);
    active.unique_seq_to_set();
    all.lemma_cardinality_of_set();
    assert(active.to_set().subset_of(all.to_set())) by {
        assert forall|name: Seq<char>| active.to_set().contains(name) implies all.to_set().contains(
            name,
        ) by {
            let i = choose|i: int| 0 <= i < active.len() && active[i] == name;
            assert(all.contains(active[i]));
        }
    }
    lemma_len_subset(active.to_set(), all.to_set());
}

/// Visits a node and all that it depends on. `active` is the path that leads
/// to the node; `done` are the nodes that have been visited, in dependency
/// order. Returns false when the path comes back to itself.
fn visit<'a>(
    nodes: &Vec<Node<'a>>,
    name: &'a str,
    active: &mut Vec<&'a str>,
    done: &mut Vec<&'a str>,
) -> (r: bool)
    requires
        are_distinct(node_names(graph_of(nodes@))),
        is_dependency_order(graph_of(nodes@), names(old(done)@)),
        is_path(graph_of(nodes@), names(old(active)@).push(name@)),
        names(old(active)@).no_duplicates(),
        forall|i: int|
            0 <= i < old(active)@.len() ==> node_names(graph_of(nodes@)).contains(
                (#[trigger] old(active)@[i])@,
            ),
    ensures
        r ==> final(active)@ == old(active)@,
        r ==> is_dependency_order(graph_of(nodes@), names(final(done)@)),
        r ==> names(old(done)@).is_prefix_of(names(final(done)@)),
        r ==> names(final(done)@).contains(name@),
        !r ==> is_cyclic(graph_of(nodes@)),
    decreases nodes@.len() - old(active)@.len(),
{
    let ghost graph = graph_of(nodes@);
    let ghost before = active@;
    let ghost done_before = names(done@);
    if find_name(done, name).is_some() {
        proof {
            let i = choose|i: int| 0 <= i < done@.len() && done@[i]@ == name@;
            assert(names(done@)[i] == name@);
        }
        return true;
    }
    if let Some(at) = find_name(active, name) {
        proof {
            let walk = names(active@).push(name@);
            let cycle = walk.subrange(at as int, walk.len() as int);
            assert forall|i: int| 0 <= i < cycle.len() - 1 implies depends(
                graph,
                #[trigger] cycle[i],
                cycle[i + 1],
            ) by {
                assert(depends(graph, walk[at + i], walk[at + i + 1]));
            }
            assert(is_path(graph, cycle));
            assert(cycle[0] == name@ && cycle.last() == name@);
        }
        return false;
    }
    let index: usize = match find_node(nodes, name) {
        Some(index) => index,
        None => {
            done.push(name);
            proof {
                assert(names(done@) =~= done_before.push(name@));
                lemma_extended_order(graph, done_before, name@);
                assert(names(done@)[done_before.len() as int] == name@);
            }
            return true;
        },
    };
    proof {
        assert(graph[index as int].0 == name@);
        assert(node_names(graph)[index as int] == name@);
        let walk = names(before).push(name@);
        assert(walk.no_duplicates());
        assert forall|i: int| 0 <= i < walk.len() implies node_names(graph).contains(
            #[trigger] walk[i],
        ) by {
            if i < before.len() {
                assert(walk[i] == before[i]@);
            }
        }
        lemma_few_names(graph, walk);
    }
    active.push(name);
    let ghost walk = names(active@);
    assert(walk =~= names(before).push(name@));
    let list: &'a Vec<PlanItemId> = nodes[index].depends_on;
    let ghost deps = contents(list@);
    let mut k: usize = 0;
    while k < list.len()
        invariant
            k <= list@.len(),
            graph == graph_of(nodes@),
            are_distinct(node_names(graph)),
            index < nodes@.len(),
            nodes@[index as int].name@ == name@,
            nodes@[index as int].depends_on == list,
            deps == contents(list@),
            active@ == before.push(name),
            walk == names(active@),
            walk.no_duplicates(),
            is_path(graph, walk),
            before.len() < nodes@.len(),
            before == old(active)@,
            forall|i: int|
                0 <= i < active@.len() ==> node_names(graph).contains((#[trigger] active@[i])@),
            is_dependency_order(graph, names(done@)),
            done_before.is_prefix_of(names(done@)),
            forall|i: int| 0 <= i < k ==> names(done@).contains(#[trigger] deps[i]),
        decreases list@.len() - k,
    {
        let next: &'a str = list[k].as_str();
        let ghost earlier = names(done@);
        proof {
            assert(deps[k as int] == next@);
            assert(graph[index as int].1.contains(next@));
            assert(graph[index as int].0 == name@);
            assert(depends(graph, name@, next@));
            let longer = walk.push(next@);
            assert forall|i: int| 0 <= i < longer.len() - 1 implies depends(
                graph,
                #[trigger] longer[i],
                longer[i + 1],
            ) by {
                if i < walk.len() - 1 {
                    assert(depends(graph, walk[i], walk[i + 1]));
                }
            }
        }
        if !visit(nodes, next, active, done) {
            return false;
        }
        proof {
            let now = names(done@);
            assert forall|i: int| 0 <= i < k + 1 implies now.contains(#[trigger] deps[i]) by {
                if i < k {
                    assert(earlier.contains(deps[i]));
                    let j = choose|j: int| 0 <= j < earlier.len() && earlier[j] == deps[i];
                    assert(now[j] == deps[i]);
                }
            }
        }
        k += 1;
    }
    let _ = active.pop();
    assert(active@ =~= before);
    let ghost last = names(done@);
    done.push(name);
    proof {
        assert(names(done@) =~= last.push(name@));
        assert forall|to: Seq<char>| #[trigger] depends(graph, name@, to) implies last.contains(
            to,
        ) by {
            let i = choose|i: int|
                0 <= i < graph.len() && (#[trigger] graph[i]).0 == name@ && graph[i].1.contains(to);
            assert(node_names(graph)[i] == node_names(graph)[index as int]);
            assert(i == index);
            let j = choose|j: int| 0 <= j < deps.len() && deps[j] == to;
            assert(last.contains(deps[j]));
        }
        lemma_extended_order(graph, last, name@);
        assert(names(done@)[last.len() as int] == name@);
    }
    true
}

/// A node whose dependencies have all been visited may come next.
proof fn lemma_extended_order(graph: Graph, order: Seq<Seq<char>>, name: Seq<char>)
    requires
        is_dependency_order(graph, order),
        forall|to: Seq<char>| #[trigger] depends(graph, name, to) ==> order.contains(to),
    ensures
        is_dependency_order(graph, order.push(name)),
{
    let more = order.push(name);
    assert forall|i: int, to: Seq<char>|
        0 <= i < more.len() && #[trigger] depends(graph, more[i], to) implies more.take(i).contains(
        to,
    ) by {
        if i < order.len() {
            assert(depends(graph, order[i], to));
            assert(more.take(i) =~= order.take(i));
        } else {
            assert(more.take(i) =~= order);
        }
    }
}

/// Whether the nodes depend on each other without a cycle.
pub fn is_acyclic<'a>(nodes: &Vec<Node<'a>>) -> (r: bool)
    requires
        are_distinct(node_names(graph_of(nodes@))),
    ensures
        r == !is_cyclic(graph_of(nodes@)),
{
    let ghost graph = graph_of(nodes@);
    let mut active: Vec<&'a str> = Vec::new();
    let mut done: Vec<&'a str> = Vec::new();
    let mut i: usize = 0;
    while i < nodes.len()
        invariant
            i <= nodes@.len(),
            graph == graph_of(nodes@),
            are_distinct(node_names(graph)),
            active@.len() == 0,
            is_dependency_order(graph, names(done@)),
            forall|k: int| 0 <= k < i ==> names(done@).contains((#[trigger] graph[k]).0),
        decreases nodes@.len() - i,
    {
        let ghost earlier = names(done@);
        if !visit(nodes, nodes[i].name, &mut active, &mut done) {
            return false;
        }
        proof {
            let now = names(done@);
            assert forall|k: int| 0 <= k < i + 1 implies now.contains((#[trigger] graph[k]).0) by {
                if k < i {
                    assert(earlier.contains(graph[k].0));
                    let j = choose|j: int| 0 <= j < earlier.len() && earlier[j] == graph[k].0;
                    assert(now[j] == graph[k].0);
                }
            }
        }
        i += 1;
    }
    proof {
        ordered_graphs_are_acyclic(graph, names(done@));
    }
    true
}

} // verus!
