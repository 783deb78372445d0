//! Ordering the nodes of a dependency graph.
//!
//! A graph over the nodes `0..n` is a sequence of `n` sets: the set at `m`
//! holds the nodes that `m` depends on. The execution order of a graph lists
//! every node after all the nodes it depends on, and among the nodes that
//! could come next it always takes the one with the least number. A graph
//! with a cycle has no such order.

use vstd::prelude::*;

verus! {

/// The graph that adjacency lists stand for.
pub open spec fn adjacency(lists: Seq<Vec<usize>>) -> Seq<Set<usize>> {
    Seq::new(lists.len(), |m: int| lists[m]@.to_set())
}

/// Every dependency of a node of `graph` is a node of `graph`.
pub open spec fn well_formed(graph: Seq<Set<usize>>) -> bool {
    forall|m: int, d: usize|
        0 <= m < graph.len() && #[trigger] graph[m].contains(d) ==> d < graph.len()
}

/// Every node that `m` depends on is among `placed`.
pub open spec fn ready(graph: Seq<Set<usize>>, placed: Seq<usize>, m: usize) -> bool {
    forall|d: usize| #[trigger] graph[m as int].contains(d) ==> placed.contains(d)
}

/// `m` is the node that comes next after `placed`: the least node that is
/// not placed yet and whose dependencies all are.
pub open spec fn chosen(graph: Seq<Set<usize>>, placed: Seq<usize>, m: usize) -> bool {
    &&& m < graph.len()
    &&& !placed.contains(m)
    &&& ready(graph, placed, m)
    &&& forall|other: usize|
        other < m ==> placed.contains(other) || !#[trigger] ready(graph, placed, other)
}

/// `order` is the execution order of `graph`: it lists every node, and each
/// position holds the node that is [`chosen`] after the positions before it.
pub open spec fn is_execution_order(graph: Seq<Set<usize>>, order: Seq<usize>) -> bool {
    &&& order.len() == graph.len()
    &&& forall|m: usize| m < graph.len() ==> #[trigger] order.contains(m)
    &&& forall|i: int| 0 <= i < order.len() ==> chosen(graph, order.take(i), #[trigger] order[i])
}

/// The position after `i` on a cycle of `len` nodes.
pub open spec fn following(i: int, len: int) -> int {
    if i + 1 == len {
        0
    } else {
        i + 1
    }
}

/// `cycle` is a cycle of `graph`: each of its nodes depends on the one after
/// it, and the last one on the first.
pub open spec fn is_cycle(graph: Seq<Set<usize>>, cycle: Seq<usize>) -> bool {
    &&& cycle.len() > 0
    &&& forall|i: int|
        0 <= i < cycle.len() ==> (#[trigger] cycle[i]) < graph.len()
            && graph[cycle[i] as int].contains(cycle[following(i, cycle.len() as int)])
}

/// `graph` has a cycle.
pub open spec fn has_cycle(graph: Seq<Set<usize>>) -> bool {
    exists|cycle: Seq<usize>| is_cycle(graph, cycle)
}

/// The number of entries of `marks` that are `false`.
spec fn unmarked(marks: Seq<bool>) -> nat
    decreases marks.len(),
{
    if marks.len() == 0 {
        0
    } else {
        unmarked(marks.drop_last()) + if marks.last() {
            0nat
        } else {
            1nat
        }
    }
}

proof fn lemma_unmarked_fresh(marks: Seq<bool>)
    requires
        forall|i: int| 0 <= i < marks.len() ==> !marks[i],
    ensures
        unmarked(marks) == marks.len(),
    decreases marks.len(),
{
    if marks.len() > 0 {
        lemma_unmarked_fresh(marks.drop_last());
    }
}

proof fn lemma_unmarked_mark(marks: Seq<bool>, at: int)
    requires
        0 <= at < marks.len(),
        !marks[at],
    ensures
        unmarked(marks.update(at, true)) == unmarked(marks) - 1,
    decreases marks.len(),
{
    let after = marks.update(at, true);
    if at == marks.len() - 1 {
        assert(after.drop_last() =~= marks.drop_last());
    } else {
        lemma_unmarked_mark(marks.drop_last(), at);
        assert(after.drop_last() =~= marks.drop_last().update(at, true));
    }
}

proof fn lemma_unmarked_none(marks: Seq<bool>)
    requires
        forall|i: int| 0 <= i < marks.len() ==> marks[i],
    ensures
        unmarked(marks) == 0,
    decreases marks.len(),
{
    if marks.len() > 0 {
        lemma_unmarked_none(marks.drop_last());
    }
}

/// In the execution order no node stands twice.
pub proof fn lemma_order_has_no_duplicates(graph: Seq<Set<usize>>, order: Seq<usize>)
    requires
        is_execution_order(graph, order),
    ensures
        forall|i: int, j: int| 0 <= i < j < order.len() ==> order[i] != order[j],
{
    assert forall|i: int, j: int| 0 <= i < j < order.len() implies order[i] != order[j] by {
        assert(chosen(graph, order.take(j), order[j]));
        assert(order.take(j)[i] == order[i]);
    }
}

/// In the execution order every dependency of a node stands before the node.
pub proof fn lemma_order_places_dependencies_first(
    graph: Seq<Set<usize>>,
    order: Seq<usize>,
    i: int,
    d: usize,
)
    requires
        is_execution_order(graph, order),
        0 <= i < order.len(),
        graph[order[i] as int].contains(d),
    ensures
        exists|j: int| 0 <= j < i && order[j] == d,
{
    assert(chosen(graph, order.take(i), order[i]));
    let j = choose|j: int| 0 <= j < order.take(i).len() && order.take(i)[j] == d;
    assert(order[j] == d);
}

/// A graph has at most one execution order.
pub proof fn lemma_order_is_unique(graph: Seq<Set<usize>>, first: Seq<usize>, second: Seq<usize>)
    requires
        is_execution_order(graph, first),
        is_execution_order(graph, second),
    ensures
        first == second,
{
    lemma_orders_agree(graph, first, second, first.len() as int);
    assert(first.take(first.len() as int) =~= first);
    assert(second.take(second.len() as int) =~= second);
}

proof fn lemma_orders_agree(
    graph: Seq<Set<usize>>,
    first: Seq<usize>,
    second: Seq<usize>,
    upto: int,
)
    requires
        is_execution_order(graph, first),
        is_execution_order(graph, second),
        0 <= upto <= first.len(),
    ensures
        first.take(upto) == second.take(upto),
    decreases upto,
{
    if upto == 0 {
        assert(first.take(0) =~= second.take(0));
    } else {
        let i = upto - 1;
        lemma_orders_agree(graph, first, second, i);
        let placed = first.take(i);
        assert(chosen(graph, placed, first[i]));
        assert(chosen(graph, placed, second[i]));
        assert(first[i] == second[i]);
        assert(first.take(upto) =~= first.take(i).push(first[i]));
        assert(second.take(upto) =~= second.take(i).push(second[i]));
    }
}

/// The position of `node` in `order`.
spec fn position(order: Seq<usize>, node: usize) -> int {
    order.index_of(node)
}

proof fn lemma_cycle_descends(
    graph: Seq<Set<usize>>,
    order: Seq<usize>,
    cycle: Seq<usize>,
    i: int,
)
    requires
        is_execution_order(graph, order),
        is_cycle(graph, cycle),
        0 <= i < cycle.len(),
    ensures
        0 <= position(order, cycle[i]) <= position(order, cycle[0]) - i,
    decreases i,
{
    assert(order.contains(cycle[i]));
    assert(order.contains(cycle[0]));
    if i > 0 {
        lemma_cycle_descends(graph, order, cycle, i - 1);
        let from = cycle[i - 1];
        assert(order.contains(from));
        let at = position(order, from);
        assert(following(i - 1, cycle.len() as int) == i);
        assert(graph[from as int].contains(cycle[i]));
        lemma_order_places_dependencies_first(graph, order, at, cycle[i]);
        let j = choose|j: int| 0 <= j < at && order[j] == cycle[i];
        lemma_order_has_no_duplicates(graph, order);
        assert(position(order, cycle[i]) == j);
    }
}

/// A graph with a cycle has no execution order.
pub proof fn lemma_cycle_excludes_order(
    graph: Seq<Set<usize>>,
    order: Seq<usize>,
    cycle: Seq<usize>,
)
    requires
        is_cycle(graph, cycle),
    ensures
        !is_execution_order(graph, order),
{
    if is_execution_order(graph, order) {
        let last = cycle.len() - 1;
        lemma_cycle_descends(graph, order, cycle, last);
        let from = cycle[last];
        assert(order.contains(from));
        assert(order.contains(cycle[0]));
        let at = position(order, from);
        assert(following(last, cycle.len() as int) == 0);
        assert(graph[from as int].contains(cycle[0]));
        lemma_order_places_dependencies_first(graph, order, at, cycle[0]);
        let j = choose|j: int| 0 <= j < at && order[j] == cycle[0];
        lemma_order_has_no_duplicates(graph, order);
        assert(position(order, cycle[0]) == j);
    }
}

/// Every node in `list` is marked.
spec fn all_marked(list: Seq<usize>, marks: Seq<bool>) -> bool {
    forall|k: int| 0 <= k < list.len() ==> marks[#[trigger] list[k] as int]
}

/// No node is left that is unmarked and has only marked dependencies.
spec fn stuck(lists: Seq<Vec<usize>>, marks: Seq<bool>) -> bool {
    forall|m: int| 0 <= m < lists.len() ==> marks[m] || !#[trigger] all_marked(lists[m]@, marks)
}

fn settled(list: &Vec<usize>, marks: &Vec<bool>) -> (all: bool)
    requires
        forall|k: int| 0 <= k < list.len() ==> (#[trigger] list[k]) < marks.len(),
    ensures
        all == all_marked(list@, marks@),
{
    let mut k: usize = 0;
    while k < list.len()
        invariant
            k <= list.len(),
            forall|j: int| 0 <= j < list.len() ==> (#[trigger] list[j]) < marks.len(),
            forall|j: int| 0 <= j < k ==> marks[#[trigger] list[j] as int],
        decreases list.len() - k,
    {
        if !marks[list[k]] {
            return false;
        }
        k += 1;
    }
    true
}

proof fn lemma_lists_in_range(lists: Seq<Vec<usize>>, m: int)
    requires
        well_formed(adjacency(lists)),
        0 <= m < lists.len(),
    ensures
        forall|k: int| 0 <= k < lists[m].len() ==> (#[trigger] lists[m][k]) < lists.len(),
{
    let graph = adjacency(lists);
    assert forall|k: int| 0 <= k < lists[m].len() implies (#[trigger] lists[m][k])
        < lists.len() by {
        assert(lists[m]@.contains(lists[m][k]));
        assert(graph[m].contains(lists[m][k]));
    }
}

fn first_settled(deps: &Vec<Vec<usize>>, marks: &Vec<bool>) -> (found: Option<usize>)
    requires
        well_formed(adjacency(deps@)),
        marks.len() == deps.len(),
    ensures
        match found {
            Some(m) => m < deps.len() && !marks[m as int] && all_marked(deps[m as int]@, marks@)
                && forall|other: int|
                0 <= other < m ==> marks[other] || !#[trigger] all_marked(deps[other]@, marks@),
            None => stuck(deps@, marks@),
        },
{
    let mut m: usize = 0;
    while m < deps.len()
        invariant
            m <= deps.len(),
            well_formed(adjacency(deps@)),
            marks.len() == deps.len(),
            forall|other: int|
                0 <= other < m ==> marks[other] || !#[trigger] all_marked(deps[other]@, marks@),
        decreases deps.len() - m,
    {
        if !marks[m] {
            proof {
                lemma_lists_in_range(deps@, m as int);
            }
            if settled(&deps[m], marks) {
                return Some(m);
            }
        }
        m += 1;
    }
    None
}

fn first_unmarked(marks: &Vec<bool>) -> (at: usize)
    requires
        unmarked(marks@) > 0,
    ensures
        at < marks.len(),
        !marks[at as int],
{
    let mut at: usize = 0;
    loop
        invariant
            at <= marks.len(),
            unmarked(marks@) > 0,
            forall|j: int| 0 <= j < at ==> marks[j],
        decreases marks.len() - at,
    {
        proof {
            if at == marks.len() {
                lemma_unmarked_none(marks@);
            }
        }
        if !marks[at] {
            return at;
        }
        at += 1;
    }
}

fn unmarked_dependency(list: &Vec<usize>, marks: &Vec<bool>) -> (d: usize)
    requires
        forall|k: int| 0 <= k < list.len() ==> (#[trigger] list[k]) < marks.len(),
        !all_marked(list@, marks@),
    ensures
        list@.contains(d),
        d < marks.len(),
        !marks[d as int],
{
    let mut k: usize = 0;
    loop
        invariant
            k <= list.len(),
            forall|j: int| 0 <= j < list.len() ==> (#[trigger] list[j]) < marks.len(),
            forall|j: int| 0 <= j < k ==> marks[#[trigger] list[j] as int],
            !all_marked(list@, marks@),
        decreases list.len() - k,
    {
        if !marks[list[k]] {
            return list[k];
        }
        k += 1;
    }
}

/// Finds a cycle among the unmarked nodes of a graph that is stuck: it walks
/// from `start` to an unmarked dependency, again and again, until it meets a
/// node for the second time.
fn find_cycle(deps: &Vec<Vec<usize>>, marks: &Vec<bool>, start: usize) -> (cycle: Vec<usize>)
    requires
        well_formed(adjacency(deps@)),
        marks.len() == deps.len(),
        stuck(deps@, marks@),
        start < deps.len(),
        !marks[start as int],
    ensures
        is_cycle(adjacency(deps@), cycle@),
{
    let n = deps.len();
    let ghost graph = adjacency(deps@);
    let mut on_path: Vec<bool> = vec![false; n];
    let mut path: Vec<usize> = Vec::new();
    let mut current: usize = start;
    while !on_path[current]
        invariant
            n == deps.len(),
            marks.len() == n,
            on_path.len() == n,
            graph == adjacency(deps@),
            well_formed(graph),
            stuck(deps@, marks@),
            current < n,
            !marks[current as int],
            forall|i: int|
                0 <= i < path.len() ==> (#[trigger] path[i]) < n && on_path[path[i] as int],
            forall|m: int| 0 <= m < n && on_path[m] ==> path@.contains(m as usize),
            forall|i: int|
                0 <= i < path.len() - 1 ==> graph[(#[trigger] path[i]) as int].contains(
                    path[i + 1],
                ),
            path.len() > 0 ==> graph[path[path.len() - 1] as int].contains(current),
        decreases unmarked(on_path@),
    {
        let ghost before = path@;
        let ghost marked = on_path@;
        proof {
            lemma_unmarked_mark(on_path@, current as int);
            lemma_lists_in_range(deps@, current as int);
            assert(!all_marked(deps@[current as int]@, marks@));
        }
        on_path.set(current, true);
        path.push(current);
        let next = unmarked_dependency(&deps[current], marks);
        proof {
            assert(graph[current as int].contains(next));
            assert forall|m: int| 0 <= m < n && on_path[m] implies path@.contains(m as usize) by {
                if m == current {
                    assert(path@[before.len() as int] == current);
                } else {
                    assert(marked[m]);
                    let i = choose|i: int| 0 <= i < before.len() && before[i] == m as usize;
                    assert(path@[i] == m as usize);
                }
            }
        }
        current = next;
    }
    let mut first: usize = 0;
    while path[first] != current
        invariant
            first < path.len(),
            path@.contains(current),
            forall|j: int| 0 <= j < first ==> path[j] != current,
        decreases path.len() - first,
    {
        first += 1;
    }
    let mut cycle: Vec<usize> = Vec::new();
    let mut i: usize = first;
    while i < path.len()
        invariant
            first <= i <= path.len(),
            cycle@ == path@.subrange(first as int, i as int),
        decreases path.len() - i,
    {
        cycle.push(path[i]);
        assert(cycle@ =~= path@.subrange(first as int, i + 1));
        i += 1;
    }
    proof {
        let len = cycle.len() as int;
        assert forall|i: int| 0 <= i < len implies (#[trigger] cycle[i]) < graph.len()
            && graph[cycle[i] as int].contains(cycle[following(i, len)]) by {
            let at = first + i;
            assert(cycle[i] == path[at]);
            assert(path[at] < n);
            if i + 1 < len {
                assert(cycle[i + 1] == path[at + 1]);
                assert(graph[path[at] as int].contains(path[at + 1]));
            } else {
                assert(cycle[0] == path[first as int]);
                assert(graph[path[path.len() - 1] as int].contains(current));
            }
        }
    }
    cycle
}

/// Computes the execution order of the graph given by adjacency lists:
/// `deps[m]` lists the nodes that `m` depends on.
///
/// Where the graph has a cycle there is no order, and the result is one of
/// its cycles.
pub(crate) fn order(deps: &Vec<Vec<usize>>) -> (result: Result<Vec<usize>, Vec<usize>>)
    requires
        well_formed(adjacency(deps@)),
    ensures
        match result {
            Ok(order) => is_execution_order(adjacency(deps@), order@),
            Err(cycle) => is_cycle(adjacency(deps@), cycle@),
        },
        result is Err <==> has_cycle(adjacency(deps@)),
{
    let n = deps.len();
    let ghost graph = adjacency(deps@);
    let mut placed: Vec<bool> = vec![false; n];
    let mut order: Vec<usize> = Vec::new();
    proof {
        lemma_unmarked_fresh(placed@);
    }
    while order.len() < n
        invariant
            n == deps.len(),
            placed.len() == n,
            graph == adjacency(deps@),
            well_formed(graph),
            order.len() <= n,
            unmarked(placed@) + order.len() == n,
            forall|m: usize| m < n ==> (placed[m as int] <==> #[trigger] order@.contains(m)),
            forall|i: int|
                0 <= i < order.len() ==> chosen(graph, order@.take(i), #[trigger] order@[i]),
        decreases n - order.len(),
    {
        match first_settled(deps, &placed) {
            Some(m) => {
                let ghost before = order@;
                let ghost marks = placed@;
                proof {
                    lemma_unmarked_mark(placed@, m as int);
                    lemma_settled_is_ready(deps@, marks, before, m);
                    assert forall|other: usize| other < m implies before.contains(other)
                        || !#[trigger] ready(graph, before, other) by {
                        lemma_settled_is_ready(deps@, marks, before, other);
                    }
                    assert(chosen(graph, before, m));
                }
                placed.set(m, true);
                order.push(m);
                proof {
                    assert(order@.take(before.len() as int) =~= before);
                    assert forall|i: int| 0 <= i < order.len() implies chosen(
                        graph,
                        order@.take(i),
                        #[trigger] order@[i],
                    ) by {
                        if i < before.len() {
                            assert(order@.take(i) =~= before.take(i));
                        }
                    }
                    assert forall|o: usize| o < n implies (placed[o as int]
                        <==> #[trigger] order@.contains(o)) by {
                        if o == m {
                            assert(order@[before.len() as int] == m);
                        } else {
                            if before.contains(o) {
                                let i = choose|i: int| 0 <= i < before.len() && before[i] == o;
                                assert(order@[i] == o);
                            }
                            if order@.contains(o) {
                                let i = choose|i: int| 0 <= i < order@.len() && order@[i] == o;
                                assert(before[i] == o);
                            }
                        }
                    }
                }
            },
            None => {
                let start = first_unmarked(&placed);
                let cycle = find_cycle(deps, &placed, start);
                return Err(cycle);
            },
        }
    }
    proof {
        assert forall|m: usize| m < graph.len() implies #[trigger] order@.contains(m) by {
            if !placed[m as int] {
                lemma_unmarked_none_left(placed@, m as int);
            }
        }
        assert forall|cycle: Seq<usize>| !is_cycle(graph, cycle) by {
            if is_cycle(graph, cycle) {
                lemma_cycle_excludes_order(graph, order@, cycle);
            }
        }
    }
    Ok(order)
}

proof fn lemma_unmarked_none_left(marks: Seq<bool>, at: int)
    requires
        0 <= at < marks.len(),
        !marks[at],
    ensures
        unmarked(marks) > 0,
    decreases marks.len(),
{
    if at < marks.len() - 1 {
        lemma_unmarked_none_left(marks.drop_last(), at);
    }
}

/// For a node of a well-formed graph, to have all its dependencies marked is
/// to be ready after the nodes placed, where the marks say which nodes are
/// placed.
proof fn lemma_settled_is_ready(
    lists: Seq<Vec<usize>>,
    marks: Seq<bool>,
    placed: Seq<usize>,
    m: usize,
)
    requires
        well_formed(adjacency(lists)),
        marks.len() == lists.len(),
        m < lists.len(),
        forall|o: usize| o < lists.len() ==> (marks[o as int] <==> #[trigger] placed.contains(o)),
    ensures
        all_marked(lists[m as int]@, marks) <==> ready(adjacency(lists), placed, m),
{
    let graph = adjacency(lists);
    let list = lists[m as int]@;
    lemma_lists_in_range(lists, m as int);
    if all_marked(list, marks) {
        assert forall|d: usize| #[trigger] graph[m as int].contains(d) implies placed.contains(
            d,
        ) by {
            let k = choose|k: int| 0 <= k < list.len() && list[k] == d;
            assert(marks[list[k] as int]);
        }
    }
    if ready(graph, placed, m) {
        assert forall|k: int| 0 <= k < list.len() implies marks[#[trigger] list[k] as int] by {
            assert(list.contains(list[k]));
            assert(graph[m as int].contains(list[k]));
        }
    }
}

} // verus!
