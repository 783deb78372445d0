//! The execution engine: which action runs next, and what became of each
//! manifest.
//!
//! The engine goes through the manifests in their execution order and
//! through the actions of each manifest in the order they are declared in.
//! It hands out one action at a time and takes back how it ended. The first
//! action that fails ends its manifest, and a manifest is skipped if any
//! manifest it depends on did not succeed. Running an action is left to the
//! caller.

use crate::actions::ActionError;
use crate::actions::ActionErrorView;
use crate::actions::ActionResult;
use crate::dag::all_known;
use crate::dag::assign;
use crate::dag::dependencies;
use crate::dag::indexed;
use crate::dag::ordered;
use crate::dag::plan;
use crate::dag::DagError;
use crate::graph::adjacency;
use crate::graph::has_cycle;
use crate::graph::is_execution_order;
use crate::graph::lemma_order_has_no_duplicates;
use crate::graph::lemma_order_places_dependencies_first;
use crate::graph::well_formed;
use crate::manifest::Manifest;
use vstd::prelude::*;

verus! {

/// What became of a manifest.
#[derive(Clone, Debug, PartialEq)]
pub enum Status {
    /// The manifest has not been decided yet.
    Pending,
    /// All actions of the manifest succeeded.
    Succeeded,
    /// An action of the manifest failed with this error.
    Failed(ActionError),
    /// A manifest that this one depends on did not succeed.
    Skipped,
}

/// The mathematical value of a [`Status`].
pub enum StatusView {
    Pending,
    Succeeded,
    Failed(ActionErrorView),
    Skipped,
}

impl View for Status {
    type V = StatusView;

    open spec fn view(&self) -> StatusView {
        match self {
            Status::Pending => StatusView::Pending,
            Status::Succeeded => StatusView::Succeeded,
            Status::Failed(error) => StatusView::Failed(error@),
            Status::Skipped => StatusView::Skipped,
        }
    }
}

impl DeepView for Status {
    type V = StatusView;

    open spec fn deep_view(&self) -> StatusView {
        self@
    }
}

/// What the caller does next.
#[derive(Clone, Copy, Debug, PartialEq, Eq, Structural)]
pub enum Step {
    /// Run the action at `action` of the manifest at `manifest`, then report
    /// how it ended.
    Run { manifest: usize, action: usize },
    /// Every manifest is decided.
    Finished,
}

/// The state of a run over a set of manifests.
#[derive(Debug)]
pub struct Engine {
    order: Vec<usize>,
    lists: Vec<Vec<usize>>,
    actions: Vec<usize>,
    statuses: Vec<Status>,
    completed: Vec<usize>,
    cursor: usize,
    awaiting: bool,
}

/// The mathematical value of an [`Engine`].
pub struct EngineView {
    /// The dependency graph of the manifests.
    pub graph: Seq<Set<usize>>,
    /// The execution order of the manifests.
    pub order: Seq<usize>,
    /// How many actions each manifest has.
    pub actions: Seq<usize>,
    /// What became of each manifest.
    pub statuses: Seq<StatusView>,
    /// How many actions of each manifest have succeeded.
    pub completed: Seq<usize>,
    /// The position in `order` of the manifest that is decided next.
    pub cursor: int,
    /// Whether an action has been handed out and its end not reported yet.
    pub awaiting: bool,
}

impl EngineView {
    /// Every manifest that `m` depends on succeeded.
    pub open spec fn upstream_succeeded(self, m: usize) -> bool {
        forall|d: usize| #[trigger]
            self.graph[m as int].contains(d) ==> self.statuses[d as int] is Succeeded
    }

    /// The manifest at position `p` of the order is in a state that the
    /// rules of the engine allow.
    ///
    /// Before the cursor every manifest is decided: skipped, with none of its
    /// actions run, exactly if some manifest it depends on did not succeed;
    /// else succeeded if all its actions did, failed if one of them did not.
    /// From the cursor on every manifest is pending, and only the manifest
    /// at the cursor may have actions that ran.
    pub open spec fn consistent_at(self, p: int) -> bool {
        let m = self.order[p];
        let completed = self.completed[m as int];
        let actions = self.actions[m as int];
        if p < self.cursor {
            match self.statuses[m as int] {
                StatusView::Pending => false,
                StatusView::Skipped => completed == 0 && !self.upstream_succeeded(m),
                StatusView::Succeeded => completed == actions && self.upstream_succeeded(m),
                StatusView::Failed(_) => completed < actions && self.upstream_succeeded(m),
            }
        } else if p == self.cursor {
            &&& self.statuses[m as int] is Pending
            &&& completed <= actions
            &&& completed > 0 ==> self.upstream_succeeded(m)
            &&& self.awaiting ==> completed < actions && self.upstream_succeeded(m)
        } else {
            self.statuses[m as int] is Pending && completed == 0
        }
    }

    /// The state is one that the engine can be in.
    pub open spec fn wf(self) -> bool {
        &&& well_formed(self.graph)
        &&& is_execution_order(self.graph, self.order)
        &&& self.actions.len() == self.graph.len()
        &&& self.statuses.len() == self.graph.len()
        &&& self.completed.len() == self.graph.len()
        &&& 0 <= self.cursor <= self.graph.len()
        &&& self.awaiting ==> self.cursor < self.graph.len()
        &&& forall|p: int| 0 <= p < self.order.len() ==> #[trigger] self.consistent_at(p)
    }

    /// Nothing has run yet.
    pub open spec fn fresh(self) -> bool {
        &&& self.cursor == 0
        &&& !self.awaiting
        &&& forall|m: int| 0 <= m < self.graph.len() ==> (#[trigger] self.statuses[m]) is Pending
        &&& forall|m: int| 0 <= m < self.graph.len() ==> #[trigger] self.completed[m] == 0
    }

    /// Every manifest is decided.
    pub open spec fn finished(self) -> bool {
        self.cursor == self.graph.len()
    }

    /// Some manifest failed or was skipped.
    pub open spec fn troubled(self) -> bool {
        exists|m: int|
            0 <= m < self.statuses.len() && ((#[trigger] self.statuses[m]) is Failed
                || self.statuses[m] is Skipped)
    }

    /// The same manifests in the same order.
    pub open spec fn same_plan(self, other: EngineView) -> bool {
        self.graph == other.graph && self.order == other.order && self.actions == other.actions
    }
}

impl View for Engine {
    type V = EngineView;

    closed spec fn view(&self) -> EngineView {
        EngineView {
            graph: adjacency(self.lists@),
            order: self.order@,
            actions: self.actions@,
            statuses: self.statuses.deep_view(),
            completed: self.completed@,
            cursor: self.cursor as int,
            awaiting: self.awaiting,
        }
    }
}

/// In a state of the engine, the manifests that a decided manifest depends
/// on stand before it, so none of them is the manifest at the cursor or a
/// later one.
proof fn lemma_upstream_is_earlier(state: EngineView, p: int, d: usize)
    requires
        well_formed(state.graph),
        is_execution_order(state.graph, state.order),
        0 <= p < state.order.len(),
        state.graph[state.order[p] as int].contains(d),
    ensures
        exists|j: int| 0 <= j < p && state.order[j] == d,
        forall|q: int| p <= q < state.order.len() ==> state.order[q] != d,
{
    lemma_order_places_dependencies_first(state.graph, state.order, p, d);
    lemma_order_has_no_duplicates(state.graph, state.order);
}

/// Deciding the manifest at the cursor, or counting one of its actions,
/// leaves every other position consistent.
proof fn lemma_others_stay_consistent(before: EngineView, after: EngineView)
    requires
        before.wf(),
        before.cursor < before.graph.len(),
        after.same_plan(before),
        after.statuses.len() == before.statuses.len(),
        after.completed.len() == before.completed.len(),
        after.cursor == before.cursor || (after.cursor == before.cursor + 1 && !after.awaiting),
        forall|m: int|
            0 <= m < before.graph.len() && m != before.order[before.cursor] ==> after.statuses[m]
                == before.statuses[m] && after.completed[m] == before.completed[m],
    ensures
        forall|p: int|
            0 <= p < before.order.len() && p != before.cursor ==> #[trigger] after.consistent_at(p),
{
    let current = before.order[before.cursor];
    lemma_order_has_no_duplicates(before.graph, before.order);
    assert forall|p: int|
        0 <= p < before.order.len() && p != before.cursor implies #[trigger] after.consistent_at(
        p,
    ) by {
        let m = before.order[p];
        assert(before.consistent_at(p));
        assert(crate::graph::chosen(before.graph, before.order.take(p), before.order[p]));
        assert(m != current);
        assert(after.statuses[m as int] == before.statuses[m as int]);
        assert(after.completed[m as int] == before.completed[m as int]);
        if p < before.cursor {
            assert forall|d: usize| #[trigger]
                before.graph[m as int].contains(d) implies after.statuses[d as int]
                == before.statuses[d as int] by {
                lemma_upstream_is_earlier(before, p, d);
            }
            assert(after.upstream_succeeded(m) == before.upstream_succeeded(m));
            assert(p < after.cursor);
        } else {
            assert(p > before.cursor);
            assert(before.completed[m as int] == 0);
        }
    }
}

impl Engine {
    /// Whether every manifest in `list` succeeded.
    fn all_succeeded(&self, list: &Vec<usize>) -> (all: bool)
        requires
            forall|k: int| 0 <= k < list.len() ==> (#[trigger] list[k]) < self.statuses.len(),
        ensures
            all == forall|k: int|
                0 <= k < list.len() ==> self.statuses[(#[trigger] list[k]) as int]@ is Succeeded,
    {
        let mut k: usize = 0;
        while k < list.len()
            invariant
                k <= list.len(),
                forall|j: int| 0 <= j < list.len() ==> (#[trigger] list[j]) < self.statuses.len(),
                forall|j: int|
                    0 <= j < k ==> self.statuses[(#[trigger] list[j]) as int]@ is Succeeded,
            decreases list.len() - k,
        {
            match &self.statuses[list[k]] {
                Status::Succeeded => {},
                _ => {
                    return false;
                },
            }
            k += 1;
        }
        true
    }

    /// Whether every manifest that `m` depends on succeeded.
    fn upstream_succeeded(&self, m: usize) -> (all: bool)
        requires
            self@.wf(),
            m < self.lists.len(),
        ensures
            all == self@.upstream_succeeded(m),
    {
        let list = &self.lists[m];
        let ghost graph = adjacency(self.lists@);
        proof {
            assert forall|k: int| 0 <= k < list.len() implies (#[trigger] list[k])
                < self.statuses.len() by {
                assert(list@.contains(list[k]));
                assert(graph[m as int].contains(list[k]));
            }
        }
        let all = self.all_succeeded(list);
        proof {
            if all {
                assert forall|d: usize| #[trigger]
                    graph[m as int].contains(d) implies self@.statuses[d as int] is Succeeded by {
                    let k = choose|k: int| 0 <= k < list@.len() && list@[k] == d;
                    assert(self.statuses[list[k] as int]@ is Succeeded);
                }
            } else {
                let k = choose|k: int|
                    0 <= k < list.len() && !(self.statuses[(#[trigger] list[k]) as int]@
                        is Succeeded);
                assert(list@.contains(list[k]));
                assert(graph[m as int].contains(list[k]));
            }
        }
        all
    }

    /// Orders the manifests, writes each manifest's position in the order
    /// into its `dag_index`, and starts a run over them with nothing done
    /// yet.
    ///
    /// Where the manifests have no execution order no run is started and the
    /// manifests stay as they are.
    pub fn start(manifests: &mut Vec<Manifest>) -> (result: Result<Engine, DagError>)
        ensures
            match result {
                Ok(engine) => {
                    &&& engine@.wf()
                    &&& engine@.fresh()
                    &&& engine@.graph == dependencies(old(manifests)@)
                    &&& all_known(old(manifests)@)
                    &&& indexed(old(manifests)@, final(manifests)@, engine@.order)
                    &&& forall|m: int|
                        0 <= m < old(manifests).len() ==> #[trigger] engine@.actions[m] == old(
                            manifests,
                        )[m].actions.len()
                },
                Err(error) => ordered(old(manifests)@, Err(error)) && *final(manifests) == *old(
                    manifests,
                ),
            },
            result is Ok <==> all_known(old(manifests)@) && !has_cycle(
                dependencies(old(manifests)@),
            ),
    {
        match plan(manifests) {
            Err(error) => Err(error),
            Ok((order, lists)) => {
                let n = manifests.len();
                let mut actions: Vec<usize> = Vec::new();
                let mut statuses: Vec<Status> = Vec::new();
                let mut completed: Vec<usize> = Vec::new();
                let mut m: usize = 0;
                while m < n
                    invariant
                        n == manifests.len(),
                        m <= n,
                        actions.len() == m,
                        statuses.len() == m,
                        completed.len() == m,
                        forall|j: int|
                            0 <= j < m ==> #[trigger] actions[j] == manifests[j].actions.len(),
                        forall|j: int| 0 <= j < m ==> (#[trigger] statuses[j])@ is Pending,
                        forall|j: int| 0 <= j < m ==> #[trigger] completed[j] == 0,
                    decreases n - m,
                {
                    actions.push(manifests[m].actions.len());
                    statuses.push(Status::Pending);
                    completed.push(0);
                    m += 1;
                }
                assign(manifests, &order);
                let engine = Engine {
                    order,
                    lists,
                    actions,
                    statuses,
                    completed,
                    cursor: 0,
                    awaiting: false,
                };
                proof {
                    let state = engine@;
                    assert(state.statuses.len() == n);
                    assert forall|j: int|
                        0 <= j < n implies (#[trigger] state.statuses[j]) is Pending
                        && state.completed[j] == 0 by {
                        assert(engine.statuses[j]@ is Pending);
                    }
                    assert forall|p: int|
                        0 <= p < state.order.len() implies #[trigger] state.consistent_at(p) by {
                        assert(crate::graph::chosen(
                            state.graph,
                            state.order.take(p),
                            state.order[p],
                        ));
                    }
                }
                Ok(engine)
            },
        }
    }

    /// Names the action to run next. Manifests that have nothing left to run
    /// are decided on the way: a manifest is skipped if a manifest it
    /// depends on did not succeed, and has succeeded when all its actions
    /// have. When every manifest is decided the run is finished.
    ///
    /// An action only runs when every manifest that its manifest depends on
    /// has succeeded, and no manifest fails on the way: a manifest only
    /// fails when [`Engine::record`] is told so. Asking again before the end
    /// of the action has been reported names the same action.
    pub fn next(&mut self) -> (step: Step)
        requires
            old(self)@.wf(),
        ensures
            final(self)@.wf(),
            final(self)@.same_plan(old(self)@),
            final(self)@.completed == old(self)@.completed,
            old(self)@.cursor <= final(self)@.cursor,
            old(self)@.awaiting ==> final(self)@ == old(self)@,
            forall|p: int|
                0 <= p < old(self)@.cursor ==> final(self)@.statuses[old(self)@.order[p] as int]
                    == old(self)@.statuses[old(self)@.order[p] as int],
            forall|m: int|
                0 <= m < final(self)@.statuses.len() && (#[trigger] final(self)@.statuses[m])
                    is Failed ==> final(self)@.statuses[m] == old(self)@.statuses[m],
            match step {
                Step::Run { manifest, action } => {
                    &&& final(self)@.awaiting
                    &&& manifest == final(self)@.order[final(self)@.cursor]
                    &&& action == final(self)@.completed[manifest as int]
                    &&& action < final(self)@.actions[manifest as int]
                    &&& final(self)@.upstream_succeeded(manifest)
                },
                Step::Finished => final(self)@.finished() && !final(self)@.awaiting,
            },
    {
        let n = self.order.len();
        while !self.awaiting && self.cursor < n
            invariant
                n == self.order.len(),
                old(self)@.wf(),
                self@.wf(),
                self@.same_plan(old(self)@),
                self@.completed == old(self)@.completed,
                old(self)@.cursor <= self@.cursor,
                old(self)@.awaiting ==> self@ == old(self)@,
                forall|p: int|
                    0 <= p < old(self)@.cursor ==> self@.statuses[old(self)@.order[p] as int]
                        == old(self)@.statuses[old(self)@.order[p] as int],
                forall|m: int|
                    0 <= m < self@.statuses.len() && (#[trigger] self@.statuses[m]) is Failed
                        ==> self@.statuses[m] == old(self)@.statuses[m],
            decreases n - self.cursor + if self.awaiting { 0int } else { 1int },
        {
            let ghost before = self@;
            let m = self.order[self.cursor];
            proof {
                assert(before.consistent_at(before.cursor));
                assert(crate::graph::chosen(
                    before.graph,
                    before.order.take(before.cursor),
                    before.order[before.cursor],
                ));
                lemma_order_has_no_duplicates(before.graph, before.order);
            }
            if !self.upstream_succeeded(m) {
                self.statuses[m] = Status::Skipped;
                self.cursor = self.cursor + 1;
            } else if self.completed[m] == self.actions[m] {
                self.statuses[m] = Status::Succeeded;
                self.cursor = self.cursor + 1;
            } else {
                self.awaiting = true;
            }
            proof {
                let after = self@;
                assert(after.statuses.len() == before.statuses.len());
                assert forall|j: int|
                    0 <= j < before.graph.len() && j != m implies after.statuses[j]
                    == before.statuses[j] by {}
                lemma_others_stay_consistent(before, after);
                assert forall|d: usize| #[trigger]
                    before.graph[m as int].contains(d) implies after.statuses[d as int]
                    == before.statuses[d as int] by {
                    lemma_upstream_is_earlier(before, before.cursor, d);
                }
                assert(after.upstream_succeeded(m) == before.upstream_succeeded(m));
                assert(after.consistent_at(before.cursor));
                if after.cursor < after.order.len() && after.cursor != before.cursor {
                    assert(before.consistent_at(after.cursor));
                }
                assert forall|p: int|
                    0 <= p < after.order.len() implies #[trigger] after.consistent_at(p) by {
                    if p == after.cursor && p != before.cursor {
                        assert(before.consistent_at(p));
                        let next = before.order[p];
                        assert(next != m);
                    }
                }
            }
        }
        if self.awaiting {
            let manifest = self.order[self.cursor];
            proof {
                assert(self@.consistent_at(self@.cursor));
            }
            Step::Run { manifest, action: self.completed[manifest] }
        } else {
            Step::Finished
        }
    }

    /// Takes the end of the action that [`Engine::next`] handed out. A
    /// success counts the action as done. A failure ends the manifest: it has
    /// failed with that error, and none of its remaining actions will run.
    ///
    /// The result says whether an action was handed out at all; if none was,
    /// nothing changes.
    pub fn record(&mut self, outcome: Result<ActionResult, ActionError>) -> (accepted: bool)
        requires
            old(self)@.wf(),
        ensures
            final(self)@.wf(),
            final(self)@.same_plan(old(self)@),
            accepted == old(self)@.awaiting,
            !final(self)@.awaiting,
            !old(self)@.awaiting ==> final(self)@ == old(self)@,
            old(self)@.awaiting ==> ({
                let before = old(self)@;
                let after = final(self)@;
                let m = before.order[before.cursor] as int;
                match outcome {
                    Ok(_) => after.statuses == before.statuses && after.cursor == before.cursor
                        && after.completed == before.completed.update(
                        m,
                        (before.completed[m] + 1) as usize,
                    ),
                    Err(error) => after.statuses == before.statuses.update(
                        m,
                        StatusView::Failed(error@),
                    ) && after.cursor == before.cursor + 1 && after.completed == before.completed,
                }
            }),
    {
        if !self.awaiting {
            return false;
        }
        let ghost before = self@;
        let m = self.order[self.cursor];
        proof {
            assert(before.consistent_at(before.cursor));
            assert(crate::graph::chosen(
                before.graph,
                before.order.take(before.cursor),
                before.order[before.cursor],
            ));
        }
        let ghost failure: Option<ActionErrorView> = if outcome is Err {
            Some(outcome->Err_0@)
        } else {
            None
        };
        match outcome {
            Ok(_) => {
                self.completed[m] = self.completed[m] + 1;
            },
            Err(error) => {
                assert(self.cursor < self.lists.len());
                self.statuses[m] = Status::Failed(error);
                self.cursor = self.cursor + 1;
            },
        }
        self.awaiting = false;
        proof {
            let after = self@;
            assert(after.statuses.len() == before.statuses.len());
            lemma_others_stay_consistent(before, after);
            assert forall|d: usize| #[trigger]
                before.graph[m as int].contains(d) implies after.statuses[d as int]
                == before.statuses[d as int] by {
                lemma_upstream_is_earlier(before, before.cursor, d);
            }
            assert(after.upstream_succeeded(m) == before.upstream_succeeded(m));
            assert(after.consistent_at(before.cursor));
            assert forall|p: int| 0 <= p < after.order.len() implies #[trigger] after.consistent_at(
                p,
            ) by {}
            match failure {
                None => {
                    assert(after.statuses =~= before.statuses);
                    assert(after.completed =~= before.completed.update(
                        m as int,
                        (before.completed[m as int] + 1) as usize,
                    ));
                },
                Some(error) => {
                    assert(after.statuses =~= before.statuses.update(
                        m as int,
                        StatusView::Failed(error),
                    ));
                },
            }
        }
        true
    }

    /// The execution order of the manifests, as positions in the list the
    /// run was started with.
    pub fn order(&self) -> (order: &Vec<usize>)
        ensures
            order@ == self@.order,
    {
        &self.order
    }

    /// What became of each manifest so far.
    pub fn statuses(&self) -> (statuses: &Vec<Status>)
        ensures
            statuses.deep_view() == self@.statuses,
    {
        &self.statuses
    }

    /// Whether every manifest is decided.
    pub fn finished(&self) -> (finished: bool)
        ensures
            finished == self@.finished(),
    {
        self.cursor == self.lists.len()
    }

    /// The exit status of the process: `1` if a manifest failed or was
    /// skipped, else `0`.
    pub fn exit_status(&self) -> (code: i32)
        ensures
            code == if self@.troubled() {
                1i32
            } else {
                0i32
            },
    {
        let mut m: usize = 0;
        while m < self.statuses.len()
            invariant
                m <= self.statuses.len(),
                forall|j: int|
                    0 <= j < m ==> !((#[trigger] self@.statuses[j]) is Failed
                        || self@.statuses[j] is Skipped),
            decreases self.statuses.len() - m,
        {
            match &self.statuses[m] {
                Status::Failed(_) => {
                    assert(self@.statuses[m as int] is Failed);
                    return 1;
                },
                Status::Skipped => {
                    assert(self@.statuses[m as int] is Skipped);
                    return 1;
                },
                _ => {
                    assert(!(self@.statuses[m as int] is Failed
                        || self@.statuses[m as int] is Skipped));
                },
            }
            m += 1;
        }
        0
    }
}

/// `path` leads through `graph` along dependencies: each of its nodes
/// depends on the one after it.
pub open spec fn leads(graph: Seq<Set<usize>>, path: Seq<usize>) -> bool {
    &&& path.len() >= 2
    &&& forall|i: int|
        0 <= i < path.len() - 1 ==> (#[trigger] path[i]) < graph.len()
            && graph[path[i] as int].contains(path[i + 1])
}

/// `m` depends on `on`, directly or through other nodes.
pub open spec fn depends_transitively(graph: Seq<Set<usize>>, m: usize, on: usize) -> bool {
    exists|path: Seq<usize>| #[trigger] leads(graph, path) && path[0] == m && path.last() == on
}

/// The upstream failure of a manifest: a manifest that failed and that it
/// depends on, directly or through others.
pub open spec fn has_failed_upstream(state: EngineView, m: usize) -> bool {
    exists|on: usize|
        on < state.graph.len() && #[trigger] depends_transitively(state.graph, m, on)
            && state.statuses[on as int] is Failed
}

proof fn lemma_skipped_has_failed_upstream(state: EngineView, p: int)
    requires
        state.wf(),
        0 <= p < state.cursor,
        state.statuses[state.order[p] as int] is Skipped,
    ensures
        has_failed_upstream(state, state.order[p]),
    decreases p,
{
    let m = state.order[p];
    assert(state.consistent_at(p));
    let d = choose|d: usize| #[trigger]
        state.graph[m as int].contains(d) && !(state.statuses[d as int] is Succeeded);
    lemma_upstream_is_earlier(state, p, d);
    let j = choose|j: int| 0 <= j < p && state.order[j] == d;
    assert(state.consistent_at(j));
    assert(crate::graph::chosen(state.graph, state.order.take(p), state.order[p]));
    if state.statuses[d as int] is Failed {
        let path = seq![m, d];
        assert(leads(state.graph, path));
        assert(path[0] == m && path.last() == d);
        assert(depends_transitively(state.graph, m, d));
    } else {
        lemma_skipped_has_failed_upstream(state, j);
        let on = choose|on: usize|
            on < state.graph.len() && #[trigger] depends_transitively(state.graph, d, on)
                && state.statuses[on as int] is Failed;
        let tail = choose|path: Seq<usize>| #[trigger]
            leads(state.graph, path) && path[0] == d && path.last() == on;
        let path = seq![m] + tail;
        assert forall|i: int| 0 <= i < path.len() - 1 implies (#[trigger] path[i])
            < state.graph.len() && state.graph[path[i] as int].contains(path[i + 1]) by {
            if i > 0 {
                assert(path[i] == tail[i - 1]);
                assert(path[i + 1] == tail[i]);
            } else {
                assert(path[1] == tail[0]);
            }
        }
        assert(leads(state.graph, path));
        assert(path[0] == m && path.last() == on);
        assert(depends_transitively(state.graph, m, on));
    }
}

proof fn lemma_failed_upstream_skips(state: EngineView, p: int, path: Seq<usize>)
    requires
        state.wf(),
        0 <= p < state.cursor,
        leads(state.graph, path),
        path[0] == state.order[p],
        state.statuses[path.last() as int] is Failed,
    ensures
        state.statuses[state.order[p] as int] is Skipped,
    decreases path.len(),
{
    let m = state.order[p];
    let d = path[1];
    assert(state.consistent_at(p));
    assert(state.graph[path[0] as int].contains(path[1]));
    lemma_upstream_is_earlier(state, p, d);
    let j = choose|j: int| 0 <= j < p && state.order[j] == d;
    if path.len() > 2 {
        let tail = path.subrange(1, path.len() as int);
        assert forall|i: int| 0 <= i < tail.len() - 1 implies (#[trigger] tail[i])
            < state.graph.len() && state.graph[tail[i] as int].contains(tail[i + 1]) by {
            assert(tail[i] == path[i + 1]);
            assert(tail[i + 1] == path[i + 2]);
        }
        assert(tail.last() == path.last());
        lemma_failed_upstream_skips(state, j, tail);
    }
    assert(!(state.statuses[d as int] is Succeeded));
}

/// Of the manifests that are decided, those that were skipped are exactly
/// those that depend, directly or through other manifests, on a manifest
/// that failed; and of a manifest that was skipped no action has run.
pub proof fn lemma_skipped_exactly_below_failure(state: EngineView, p: int)
    requires
        state.wf(),
        0 <= p < state.cursor,
    ensures
        state.statuses[state.order[p] as int] is Skipped <==> has_failed_upstream(
            state,
            state.order[p],
        ),
        state.statuses[state.order[p] as int] is Skipped ==> state.completed[state.order[p] as int]
            == 0,
{
    assert(state.consistent_at(p));
    let m = state.order[p];
    if state.statuses[m as int] is Skipped {
        lemma_skipped_has_failed_upstream(state, p);
    }
    if has_failed_upstream(state, m) {
        let on = choose|on: usize|
            on < state.graph.len() && #[trigger] depends_transitively(state.graph, m, on)
                && state.statuses[on as int] is Failed;
        let path = choose|path: Seq<usize>| #[trigger]
            leads(state.graph, path) && path[0] == m && path.last() == on;
        lemma_failed_upstream_skips(state, p, path);
    }
}

/// No action is started below a failure: where the manifest that is decided
/// next depends, directly or through other manifests, on a manifest that
/// failed, one of the manifests it depends on did not succeed, so that none
/// of its actions has run and none will.
pub proof fn lemma_nothing_starts_below_failure(state: EngineView)
    requires
        state.wf(),
        state.cursor < state.order.len(),
        has_failed_upstream(state, state.order[state.cursor]),
    ensures
        !state.upstream_succeeded(state.order[state.cursor]),
        state.completed[state.order[state.cursor] as int] == 0,
        !state.awaiting,
{
    let p = state.cursor;
    let m = state.order[p];
    let on = choose|on: usize|
        on < state.graph.len() && #[trigger] depends_transitively(state.graph, m, on)
            && state.statuses[on as int] is Failed;
    let path = choose|path: Seq<usize>| #[trigger]
        leads(state.graph, path) && path[0] == m && path.last() == on;
    let d = path[1];
    assert(state.consistent_at(p));
    assert(state.graph[path[0] as int].contains(path[1]));
    lemma_upstream_is_earlier(state, p, d);
    let j = choose|j: int| 0 <= j < p && state.order[j] == d;
    if path.len() > 2 {
        let tail = path.subrange(1, path.len() as int);
        assert forall|i: int| 0 <= i < tail.len() - 1 implies (#[trigger] tail[i])
            < state.graph.len() && state.graph[tail[i] as int].contains(tail[i + 1]) by {
            assert(tail[i] == path[i + 1]);
            assert(tail[i + 1] == path[i + 2]);
        }
        assert(tail.last() == path.last());
        lemma_failed_upstream_skips(state, j, tail);
    }
    assert(!(state.statuses[d as int] is Succeeded));
}

} // verus!
