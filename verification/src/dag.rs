//! The dependency graph of a set of manifests and its execution order.
//!
//! A manifest depends on every manifest that bears one of the names in its
//! `depends` list. The builder turns these names into a graph over the
//! positions of the manifests, refuses names that no manifest bears and
//! graphs with a cycle, and computes the order in which the manifests are
//! applied: dependencies first, and declaration order wherever the
//! dependencies leave a choice.

use crate::actions::ErrorKind;
use crate::graph::adjacency;
use crate::graph::has_cycle;
use crate::graph::is_cycle;
use crate::graph::is_execution_order;
use crate::manifest::Manifest;
use vstd::prelude::*;

verus! {

/// Why no execution order could be built.
#[derive(Clone, Debug, PartialEq)]
pub enum DagError {
    /// A `depends` list holds this name, which no manifest bears.
    UnknownDependency(String),
    /// The manifests with these names depend on each other in a circle: each
    /// on the next, and the last on the first.
    DependencyCycle(Vec<String>),
}

/// The names joined into a chain, an arrow between each two.
pub open spec fn chain(names: Seq<Seq<char>>) -> Seq<char>
    decreases names.len(),
{
    if names.len() == 0 {
        Seq::empty()
    } else if names.len() == 1 {
        names[0]
    } else {
        chain(names.drop_last()) + " -> "@ + names.last()
    }
}

impl DagError {
    /// The text of [`DagError::message`].
    pub open spec fn message_text(self) -> Seq<char> {
        match self {
            DagError::UnknownDependency(name) => "Unknown dependency: "@ + name@,
            DagError::DependencyCycle(names) => "Dependency cycle: "@ + chain(names.deep_view()),
        }
    }

    /// The error in words: the name that no manifest bears, or the names on
    /// the cycle with an arrow from each to the one it depends on.
    pub fn message(&self) -> (message: String)
        ensures
            message@ == self.message_text(),
    {
        match self {
            DagError::UnknownDependency(name) => {
                let mut message = String::from_str("Unknown dependency: ");
                message.append(name.as_str());
                message
            },
            DagError::DependencyCycle(names) => {
                let mut chained = String::new();
                let mut i: usize = 0;
                while i < names.len()
                    invariant
                        i <= names.len(),
                        chained@ == chain(names.deep_view().take(i as int)),
                    decreases names.len() - i,
                {
                    let ghost before = names.deep_view().take(i as int);
                    let ghost after = names.deep_view().take(i + 1);
                    proof {
                        assert(after.drop_last() =~= before);
                        assert(after.last() == names[i as int]@);
                    }
                    if i > 0 {
                        chained.append(" -> ");
                    }
                    chained.append(names[i].as_str());
                    proof {
                        if i == 0 {
                            assert(chained@ =~= names[0]@);
                        }
                    }
                    i += 1;
                }
                assert(names.deep_view().take(names.len() as int) =~= names.deep_view());
                let mut message = String::from_str("Dependency cycle: ");
                message.append(chained.as_str());
                message
            },
        }
    }

    /// The kind of the error.
    pub fn kind(&self) -> (kind: ErrorKind)
        ensures
            kind == match self {
                DagError::UnknownDependency(_) => ErrorKind::UnknownDependency,
                DagError::DependencyCycle(_) => ErrorKind::DependencyCycle,
            },
    {
        match self {
            DagError::UnknownDependency(_) => ErrorKind::UnknownDependency,
            DagError::DependencyCycle(_) => ErrorKind::DependencyCycle,
        }
    }
}

/// `manifest` bears the name `name`.
pub open spec fn bears(manifest: Manifest, name: Seq<char>) -> bool {
    manifest.name matches Some(own) && own@ == name
}

/// The manifest at `m` depends on the manifest at `d`: one of the names in
/// its `depends` list is the name of that manifest.
pub open spec fn depends_on(manifests: Seq<Manifest>, m: int, d: usize) -> bool {
    &&& 0 <= m < manifests.len()
    &&& d < manifests.len()
    &&& exists|k: int|
        0 <= k < manifests[m].depends.len() && bears(
            manifests[d as int],
            #[trigger] manifests[m].depends[k]@,
        )
}

/// The dependency graph of the manifests, over their positions.
pub open spec fn dependencies(manifests: Seq<Manifest>) -> Seq<Set<usize>> {
    Seq::new(manifests.len(), |m: int| Set::new(|d: usize| depends_on(manifests, m, d)))
}

/// Some manifest bears the name `name`.
pub open spec fn known(manifests: Seq<Manifest>, name: Seq<char>) -> bool {
    exists|d: int| 0 <= d < manifests.len() && #[trigger] bears(manifests[d], name)
}

/// The name at `k` in the `depends` list of the manifest at `m`.
pub open spec fn dependency(manifests: Seq<Manifest>, m: int, k: int) -> Seq<char> {
    manifests[m].depends[k]@
}

/// Every name in every `depends` list is the name of a manifest.
pub open spec fn all_known(manifests: Seq<Manifest>) -> bool {
    forall|m: int, k: int|
        0 <= m < manifests.len() && 0 <= k < manifests[m].depends.len() ==> known(
            manifests,
            #[trigger] dependency(manifests, m, k),
        )
}

/// The name at `k` in the `depends` list of the manifest at `m` is the first
/// that no manifest bears, going through the manifests in the order they are
/// declared in and through each list from its start.
pub open spec fn first_unknown(manifests: Seq<Manifest>, m: int, k: int) -> bool {
    &&& 0 <= m < manifests.len()
    &&& 0 <= k < manifests[m].depends.len()
    &&& !known(manifests, dependency(manifests, m, k))
    &&& forall|earlier: int, at: int|
        0 <= earlier < m && 0 <= at < manifests[earlier].depends.len() ==> known(
            manifests,
            #[trigger] dependency(manifests, earlier, at),
        )
    &&& forall|at: int| 0 <= at < k ==> known(manifests, #[trigger] dependency(manifests, m, at))
}

/// The names of the manifests at the positions `nodes`.
pub open spec fn names_of(manifests: Seq<Manifest>, nodes: Seq<usize>) -> Seq<Seq<char>> {
    Seq::new(nodes.len(), |i: int| manifests[nodes[i] as int].name->0@)
}

/// What [`order`] gives for `manifests`.
///
/// An order is the execution order of the dependency graph. An unknown
/// dependency is the first name that no manifest bears. A cycle is reported
/// by the names of the manifests on one cycle of the graph, and only where
/// all names are known.
pub open spec fn ordered(manifests: Seq<Manifest>, result: Result<Vec<usize>, DagError>) -> bool {
    match result {
        Ok(order) => all_known(manifests) && is_execution_order(
            dependencies(manifests),
            order@,
        ),
        Err(DagError::UnknownDependency(name)) => exists|m: int, k: int|
            #[trigger] first_unknown(manifests, m, k) && name@ == dependency(manifests, m, k),
        Err(DagError::DependencyCycle(names)) => all_known(manifests) && exists|
            cycle: Seq<usize>,
        |
            #[trigger] is_cycle(dependencies(manifests), cycle) && names.deep_view() == names_of(
                manifests,
                cycle,
            ),
    }
}

/// The positions of the manifests that bear `name`, in ascending order.
fn bearers(manifests: &Vec<Manifest>, name: &String) -> (found: Vec<usize>)
    ensures
        forall|d: usize|
            found@.contains(d) <==> d < manifests.len() && bears(manifests[d as int], name@),
        found.len() == 0 <==> !known(manifests@, name@),
{
    let mut found: Vec<usize> = Vec::new();
    let mut d: usize = 0;
    while d < manifests.len()
        invariant
            d <= manifests.len(),
            forall|e: usize| found@.contains(e) <==> e < d && bears(manifests[e as int], name@),
        decreases manifests.len() - d,
    {
        let ghost before = found@;
        let matches = match &manifests[d].name {
            Some(own) => *own == *name,
            None => false,
        };
        if matches {
            found.push(d);
            proof {
                assert(found@ =~= before.push(d));
                assert(bears(manifests[d as int], name@));
                assert forall|e: usize| found@.contains(e) implies e < d + 1 && bears(
                    manifests[e as int],
                    name@,
                ) by {
                    let i = choose|i: int| 0 <= i < found@.len() && found@[i] == e;
                    if i < before.len() {
                        assert(before[i] == e);
                        assert(before.contains(e));
                    }
                }
                assert forall|e: usize|
                    e < d + 1 && bears(manifests[e as int], name@) implies found@.contains(e) by {
                    if e < d {
                        assert(before.contains(e));
                        let i = choose|i: int| 0 <= i < before.len() && before[i] == e;
                        assert(found@[i] == e);
                    } else {
                        assert(found@[before.len() as int] == e);
                    }
                }
            }
        } else {
            assert(!bears(manifests[d as int], name@));
        }
        d += 1;
    }
    proof {
        if found.len() > 0 {
            assert(found@.contains(found@[0]));
            assert(bears(manifests@[found@[0] as int], name@));
        }
        if known(manifests@, name@) {
            let e = choose|e: int|
                0 <= e < manifests.len() && #[trigger] bears(manifests@[e], name@);
            assert(found@.contains(e as usize));
        }
    }
    found
}

/// The positions that the manifest at `m` depends on, or the position in its
/// `depends` list of the first name that no manifest bears.
fn dependencies_of(manifests: &Vec<Manifest>, m: usize) -> (found: Result<Vec<usize>, usize>)
    requires
        m < manifests.len(),
    ensures
        match found {
            Ok(list) => list@.to_set() =~= dependencies(manifests@)[m as int] && forall|k: int|
                0 <= k < manifests[m as int].depends.len() ==> known(
                    manifests@,
                    #[trigger] dependency(manifests@, m as int, k),
                ),
            Err(k) => k < manifests[m as int].depends.len() && !known(
                manifests@,
                dependency(manifests@, m as int, k as int),
            ) && forall|at: int|
                0 <= at < k ==> known(manifests@, #[trigger] dependency(manifests@, m as int, at)),
        },
{
    let depends = &manifests[m].depends;
    let mut list: Vec<usize> = Vec::new();
    let mut k: usize = 0;
    while k < depends.len()
        invariant
            m < manifests.len(),
            depends == &manifests[m as int].depends,
            k <= depends.len(),
            forall|at: int|
                0 <= at < k ==> known(manifests@, #[trigger] dependency(manifests@, m as int, at)),
            forall|d: usize|
                list@.contains(d) <==> d < manifests.len() && exists|at: int|
                    0 <= at < k && bears(manifests[d as int], #[trigger] depends[at]@),
        decreases depends.len() - k,
    {
        let ghost before = list@;
        let mut found = bearers(manifests, &depends[k]);
        let ghost added = found@;
        if found.len() == 0 {
            return Err(k);
        }
        list.append(&mut found);
        proof {
            assert(list@ =~= before + added);
            assert forall|d: usize| list@.contains(d) implies d < manifests.len() && exists|at: int|
                0 <= at < k + 1 && bears(manifests[d as int], #[trigger] depends[at]@) by {
                let i = choose|i: int| 0 <= i < list@.len() && list@[i] == d;
                if i < before.len() {
                    assert(before.contains(d));
                    let at = choose|at: int|
                        0 <= at < k && bears(manifests[d as int], #[trigger] depends[at]@);
                    assert(bears(manifests[d as int], depends[at]@));
                } else {
                    assert(added[i - before.len()] == d);
                    assert(added.contains(d));
                    assert(bears(manifests[d as int], depends[k as int]@));
                }
            }
            assert forall|d: usize|
                d < manifests.len() && (exists|at: int|
                    0 <= at < k + 1 && bears(
                        manifests[d as int],
                        #[trigger] depends[at]@,
                    )) implies list@.contains(d) by {
                let at = choose|at: int|
                    0 <= at < k + 1 && bears(manifests[d as int], #[trigger] depends[at]@);
                if at < k {
                    assert(before.contains(d));
                    let i = choose|i: int| 0 <= i < before.len() && before[i] == d;
                    assert(list@[i] == d);
                } else {
                    assert(added.contains(d));
                    let i = choose|i: int| 0 <= i < added.len() && added[i] == d;
                    assert(list@[before.len() + i] == d);
                }
            }
        }
        k += 1;
    }
    Ok(list)
}

/// The adjacency lists of the dependency graph, or the place of the first
/// name that no manifest bears.
fn resolve(manifests: &Vec<Manifest>) -> (found: Result<Vec<Vec<usize>>, (usize, usize)>)
    ensures
        match found {
            Ok(lists) => adjacency(lists@) == dependencies(manifests@) && all_known(manifests@),
            Err((m, k)) => first_unknown(manifests@, m as int, k as int),
        },
{
    let mut lists: Vec<Vec<usize>> = Vec::new();
    let mut m: usize = 0;
    while m < manifests.len()
        invariant
            m <= manifests.len(),
            lists.len() == m,
            forall|at: int|
                0 <= at < m ==> (#[trigger] lists[at])@.to_set() =~= dependencies(manifests@)[at],
            forall|earlier: int, at: int|
                0 <= earlier < m && 0 <= at < manifests[earlier].depends.len() ==> known(
                    manifests@,
                    #[trigger] dependency(manifests@, earlier, at),
                ),
        decreases manifests.len() - m,
    {
        match dependencies_of(manifests, m) {
            Ok(list) => {
                lists.push(list);
            },
            Err(k) => {
                return Err((m, k));
            },
        }
        m += 1;
    }
    assert(adjacency(lists@) =~= dependencies(manifests@));
    Ok(lists)
}

/// Copies the names of the manifests at the positions `nodes`.
fn names(manifests: &Vec<Manifest>, nodes: &Vec<usize>) -> (names: Vec<String>)
    requires
        forall|i: int|
            0 <= i < nodes.len() ==> (#[trigger] nodes[i]) < manifests.len()
                && manifests[nodes[i] as int].name is Some,
    ensures
        names.deep_view() == names_of(manifests@, nodes@),
{
    let mut names: Vec<String> = Vec::new();
    let mut i: usize = 0;
    while i < nodes.len()
        invariant
            i <= nodes.len(),
            names.len() == i,
            forall|j: int|
                0 <= j < nodes.len() ==> (#[trigger] nodes[j]) < manifests.len()
                    && manifests[nodes[j] as int].name is Some,
            forall|j: int| 0 <= j < i ==> names[j]@ == manifests[nodes[j] as int].name->0@,
        decreases nodes.len() - i,
    {
        let name = manifests[nodes[i]].name.as_ref().unwrap().clone();
        names.push(name);
        i += 1;
    }
    assert(names.deep_view() =~= names_of(manifests@, nodes@));
    names
}

/// The adjacency lists of the dependency graph together with its execution
/// order, or the reason why there is none: see [`ordered`].
pub(crate) fn plan(manifests: &Vec<Manifest>) -> (result: Result<
    (Vec<usize>, Vec<Vec<usize>>),
    DagError,
>)
    ensures
        match result {
            Ok((order, lists)) => ordered(manifests@, Ok(order)) && adjacency(lists@)
                == dependencies(manifests@),
            Err(error) => ordered(manifests@, Err(error)),
        },
        result is Ok <==> all_known(manifests@) && !has_cycle(dependencies(manifests@)),
        result matches Err(DagError::UnknownDependency(_)) <==> !all_known(manifests@),
{
    match resolve(manifests) {
        Err((m, k)) => {
            let name = manifests[m].depends[k].clone();
            proof {
                assert(first_unknown(manifests@, m as int, k as int));
                assert(!known(manifests@, dependency(manifests@, m as int, k as int)));
            }
            Err(DagError::UnknownDependency(name))
        },
        Ok(lists) => {
            let ghost graph = dependencies(manifests@);
            assert(crate::graph::well_formed(graph));
            match crate::graph::order(&lists) {
                Ok(order) => Ok((order, lists)),
                Err(cycle) => {
                    proof {
                        assert forall|i: int| 0 <= i < cycle.len() implies (#[trigger] cycle[i])
                            < manifests.len() && manifests[cycle[i] as int].name is Some by {
                            let len = cycle.len() as int;
                            let before = if i == 0 {
                                len - 1
                            } else {
                                i - 1
                            };
                            assert(crate::graph::following(before, len) == i);
                            assert(graph[cycle[before] as int].contains(cycle[i]));
                            assert(depends_on(manifests@, cycle[before] as int, cycle[i]));
                        }
                    }
                    let involved = names(manifests, &cycle);
                    Err(DagError::DependencyCycle(involved))
                },
            }
        },
    }
}

/// Computes the order in which the manifests are applied, as positions in
/// `manifests`: see [`ordered`].
///
/// There is an order exactly if every dependency names a manifest and the
/// dependencies form no cycle. A name that no manifest bears is reported
/// before any cycle.
pub fn order(manifests: &Vec<Manifest>) -> (result: Result<Vec<usize>, DagError>)
    ensures
        ordered(manifests@, result),
        result is Ok <==> all_known(manifests@) && !has_cycle(dependencies(manifests@)),
        result matches Err(DagError::UnknownDependency(_)) <==> !all_known(manifests@),
{
    match plan(manifests) {
        Ok((order, _)) => Ok(order),
        Err(error) => Err(error),
    }
}

/// `after` is `before` with the positions of `order` written into the
/// `dag_index` of each manifest, and nothing else changed.
pub open spec fn indexed(before: Seq<Manifest>, after: Seq<Manifest>, order: Seq<usize>) -> bool {
    &&& after.len() == before.len()
    &&& forall|m: int|
        0 <= m < before.len() ==> (#[trigger] after[m]).name == before[m].name && after[m].actions
            == before[m].actions && after[m].depends == before[m].depends && after[m].root_dir
            == before[m].root_dir
    &&& forall|i: int|
        0 <= i < order.len() ==> after[(#[trigger] order[i]) as int].dag_index == Some(i as usize)
}

/// Writes the positions of `order` into the `dag_index` of each manifest.
pub(crate) fn assign(manifests: &mut Vec<Manifest>, order: &Vec<usize>)
    requires
        is_execution_order(dependencies(old(manifests)@), order@),
    ensures
        indexed(old(manifests)@, final(manifests)@, order@),
{
    let ghost graph = dependencies(manifests@);
    let mut i: usize = 0;
    while i < order.len()
        invariant
            i <= order.len(),
            is_execution_order(graph, order@),
            graph.len() == manifests.len(),
            manifests.len() == old(manifests).len(),
            forall|m: int|
                0 <= m < manifests.len() ==> (#[trigger] manifests[m]).name == old(
                    manifests,
                )[m].name && manifests[m].actions == old(manifests)[m].actions
                    && manifests[m].depends == old(manifests)[m].depends && manifests[m].root_dir
                    == old(manifests)[m].root_dir,
            forall|j: int|
                0 <= j < i ==> manifests[(#[trigger] order[j]) as int].dag_index == Some(
                    j as usize,
                ),
        decreases order.len() - i,
    {
        let m = order[i];
        proof {
            crate::graph::lemma_order_has_no_duplicates(graph, order@);
            assert(crate::graph::chosen(graph, order@.take(i as int), order@[i as int]));
        }
        manifests[m].dag_index = Some(i);
        i += 1;
    }
}

/// Computes the order in which the manifests are applied and writes each
/// manifest's position in it into its `dag_index`.
///
/// Where there is no order the manifests stay as they are.
pub fn build(manifests: &mut Vec<Manifest>) -> (result: Result<Vec<usize>, DagError>)
    ensures
        ordered(old(manifests)@, result),
        result is Ok <==> all_known(old(manifests)@) && !has_cycle(dependencies(old(manifests)@)),
        result matches Err(DagError::UnknownDependency(_)) <==> !all_known(old(manifests)@),
        match result {
            Ok(order) => indexed(old(manifests)@, final(manifests)@, order@),
            Err(_) => *final(manifests) == *old(manifests),
        },
{
    let result = order(manifests);
    match &result {
        Ok(order) => {
            assign(manifests, order);
        },
        Err(_) => {},
    }
    result
}

/// The order places every manifest after all the manifests it depends on:
/// a manifest that the manifest at position `i` of the order depends on
/// stands at a position before `i`.
pub proof fn lemma_dependencies_come_first(
    manifests: Seq<Manifest>,
    order: Seq<usize>,
    i: int,
    d: usize,
)
    requires
        is_execution_order(dependencies(manifests), order),
        0 <= i < order.len(),
        depends_on(manifests, order[i] as int, d),
    ensures
        exists|j: int| 0 <= j < i && order[j] == d,
{
    let graph = dependencies(manifests);
    assert(crate::graph::chosen(graph, order.take(i), order[i]));
    assert(graph[order[i] as int].contains(d));
    crate::graph::lemma_order_places_dependencies_first(graph, order, i, d);
}

/// Manifests whose dependencies are all known and form a cycle are refused
/// as a dependency cycle: no order is produced for them.
pub proof fn lemma_cycle_is_refused(manifests: Seq<Manifest>, result: Result<Vec<usize>, DagError>)
    requires
        ordered(manifests, result),
        all_known(manifests),
        has_cycle(dependencies(manifests)),
    ensures
        result matches Err(DagError::DependencyCycle(_)),
{
    match result {
        Ok(order) => {
            let cycle = choose|cycle: Seq<usize>| is_cycle(dependencies(manifests), cycle);
            crate::graph::lemma_cycle_excludes_order(dependencies(manifests), order@, cycle);
        },
        Err(DagError::UnknownDependency(name)) => {
            let (m, k) = choose|m: int, k: int| #[trigger]
                first_unknown(manifests, m, k) && name@ == dependency(manifests, m, k);
            assert(known(manifests, dependency(manifests, m, k)));
        },
        Err(DagError::DependencyCycle(_)) => {},
    }
}

/// Ordering the same manifests twice gives the same answer: both times an
/// order or both times none, the same order, and the same unknown name.
pub proof fn lemma_order_is_deterministic(
    manifests: Seq<Manifest>,
    first: Result<Vec<usize>, DagError>,
    second: Result<Vec<usize>, DagError>,
)
    requires
        ordered(manifests, first),
        ordered(manifests, second),
    ensures
        first is Ok <==> second is Ok,
        first matches Ok(a) ==> second matches Ok(b) && a@ == b@,
        first matches Err(DagError::UnknownDependency(a)) ==> second matches Err(
            DagError::UnknownDependency(b),
        ) && a@ == b@,
        first matches Err(DagError::DependencyCycle(_)) ==> second matches Err(
            DagError::DependencyCycle(_),
        ),
{
    lemma_outcome_is_determined(manifests, first);
    lemma_outcome_is_determined(manifests, second);
    if let Ok(a) = first {
        if let Ok(b) = second {
            crate::graph::lemma_order_is_unique(dependencies(manifests), a@, b@);
        }
    }
    if let Err(DagError::UnknownDependency(a)) = first {
        if let Err(DagError::UnknownDependency(b)) = second {
            let (m, k) = choose|m: int, k: int| #[trigger]
                first_unknown(manifests, m, k) && a@ == dependency(manifests, m, k);
            let (n, l) = choose|n: int, l: int| #[trigger]
                first_unknown(manifests, n, l) && b@ == dependency(manifests, n, l);
            if m < n {
                assert(known(manifests, dependency(manifests, m, k)));
            } else if n < m {
                assert(known(manifests, dependency(manifests, n, l)));
            } else if k < l {
                assert(known(manifests, dependency(manifests, m, k)));
            } else if l < k {
                assert(known(manifests, dependency(manifests, n, l)));
            }
        }
    }
}

/// Which of the three outcomes an ordering has is decided by the manifests.
proof fn lemma_outcome_is_determined(manifests: Seq<Manifest>, result: Result<Vec<usize>, DagError>)
    requires
        ordered(manifests, result),
    ensures
        result is Ok <==> all_known(manifests) && !has_cycle(dependencies(manifests)),
        result matches Err(DagError::UnknownDependency(_)) <==> !all_known(manifests),
{
    match result {
        Ok(order) => {
            assert forall|cycle: Seq<usize>| !is_cycle(dependencies(manifests), cycle) by {
                if is_cycle(dependencies(manifests), cycle) {
                    crate::graph::lemma_cycle_excludes_order(
                        dependencies(manifests),
                        order@,
                        cycle,
                    );
                }
            }
        },
        Err(DagError::UnknownDependency(name)) => {
            let (m, k) = choose|m: int, k: int| #[trigger]
                first_unknown(manifests, m, k) && name@ == dependency(manifests, m, k);
            assert(!known(manifests, dependency(manifests, m, k)));
        },
        Err(DagError::DependencyCycle(_)) => {},
    }
}

} // verus!
