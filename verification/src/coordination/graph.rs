//! The task graph: tasks keyed by id, and dependency edges between them.
//!
//! A link `(dependent, prerequisite)` says that `dependent` cannot start
//! before `prerequisite` has completed. Walks follow links from a dependent
//! to its prerequisites, so `reaches(links, a, b)` says that `a` waits,
//! directly or through other tasks, for `b`.
use vstd::prelude::*;
use crate::domain::{Artifact, ArtifactView, Task, TaskState, TaskStatusView, TaskView, artifacts_of, artifacts_view, clone_artifacts};
use crate::strmap::{StrMap, has_key, lemma_dom_len, lemma_key_unique};
use crate::text::{contains_str, owned, push_str, str_eq, strings_view};
use crate::guards::{debug_of_strings, debug_strings};
use crate::domain::{state_name, state_name_str};
use crate::coordination::paths::{absent, lemma_absent_drop, acyclic, is_walk, lemma_add_edge_acyclic, lemma_no_stuck_set, lemma_push_distinct, lemma_walk_push, link_at, pair_views, reach_set, reaches};
use crate::ambient::now_rfc3339;

verus! {

/// Why a coordination operation failed.
#[derive(Debug, Clone)]
pub enum CoordinationError {
    TaskNotFound { task_id: String },
    CyclicDependency { from: String, to: String },
    TaskAlreadyExists { task_id: String },
    DependencyAlreadyExists { from: String, to: String },
    PrerequisitesNotMet { task_id: String, missing: Vec<String> },
    InvalidState { task_id: String, state: TaskState },
}

/// A prerequisite relation: `dependent` cannot start before `prerequisite`
/// has completed, with the listed artifacts when some are required.
#[derive(Debug, Clone)]
pub struct DependencyEdge {
    pub dependent: String,
    pub prerequisite: String,
    pub required_artifacts: Option<Vec<String>>,
}

/// The `(dependent, prerequisite)` links of the edges.
pub open spec fn pairs_of(e: Seq<DependencyEdge>) -> Seq<(Seq<char>, Seq<char>)> {
    Seq::new(e.len(), |i: int| (e[i].dependent@, e[i].prerequisite@))
}

/// A state from which a task can still be canceled.
pub open spec fn cancellable(s: TaskState) -> bool {
    s == TaskState::Submitted || s == TaskState::Working || s == TaskState::InputRequired
}

/// A state in which a task counts as finished for the graph.
pub open spec fn finished(s: TaskState) -> bool {
    s == TaskState::Completed || s == TaskState::Failed || s == TaskState::Canceled
        || s == TaskState::Rejected || s == TaskState::Unknown
}

/// The ids of a task's artifacts.
pub open spec fn artifact_ids(t: TaskView) -> Seq<Seq<char>> {
    artifacts_of(t).map_values(|a: ArtifactView| a.artifact_id)
}

/// A prerequisite in this state is finished: completed, failed or canceled.
pub open spec fn prereq_finished(s: TaskState) -> bool {
    s == TaskState::Completed || s == TaskState::Failed || s == TaskState::Canceled
}

/// The edge is satisfied in `m`: its prerequisite has finished and holds
/// every required artifact.
pub open spec fn edge_met(m: Map<Seq<char>, Task>, e: DependencyEdge) -> bool {
    &&& prereq_finished(m[e.prerequisite@].status.state)
    &&& match e.required_artifacts {
        Some(req) => forall|j: int| 0 <= j < req@.len() ==> artifact_ids(m[e.prerequisite@]@).contains(#[trigger] req@[j]@),
        None => true,
    }
}

/// The task `t` canceled at time `at`.
pub open spec fn canceled_view(t: TaskView, at: Option<Seq<char>>) -> TaskView {
    TaskView {
        id: t.id,
        context_id: t.context_id,
        status: TaskStatusView { state: TaskState::Canceled, message: t.status.message, timestamp: at },
        history: t.history,
        artifacts: t.artifacts,
    }
}

/// `n` is `o` as cancellation leaves it: canceled and stamped, all else kept.
pub open spec fn canceled_from(n: TaskView, o: TaskView) -> bool {
    n.status.timestamp is Some && n == canceled_view(o, n.status.timestamp)
}

/// The links along which cancellation spreads: from a prerequisite to its
/// dependent, where both can still be canceled.
pub open spec fn cancel_links(m: Map<Seq<char>, Task>, e: Seq<DependencyEdge>) -> Seq<(Seq<char>, Seq<char>)>
    decreases e.len(),
{
    if e.len() == 0 {
        Seq::empty()
    } else {
        let rest = cancel_links(m, e.drop_last());
        let x = e.last();
        if cancellable(m[x.prerequisite@].status.state) && cancellable(m[x.dependent@].status.state) {
            rest.push((x.prerequisite@, x.dependent@))
        } else {
            rest
        }
    }
}

/// The artifacts of the prerequisites of `id` among the first `n` edges,
/// edge by edge.
pub open spec fn gathered(m: Map<Seq<char>, Task>, e: Seq<DependencyEdge>, id: Seq<char>, n: int) -> Seq<ArtifactView>
    decreases n,
{
    if n <= 0 {
        Seq::empty()
    } else {
        gathered(m, e, id, n - 1) + (if e[n - 1].dependent@ == id { artifacts_of(m[e[n - 1].prerequisite@]@) } else { Seq::empty() })
    }
}

/// The outcome of adding the dependency `dep -> pre` (with `req`) to `g`,
/// giving `h` and `r`.
pub open spec fn dependency_added(
    g: TaskGraph,
    h: TaskGraph,
    dep: Seq<char>,
    pre: Seq<char>,
    req: Option<Vec<String>>,
    r: Result<(), CoordinationError>,
) -> bool {
    &&& h.tasks() == g.tasks()
    &&& if !g.tasks().contains_key(dep) {
        &&& r matches Err(CoordinationError::TaskNotFound { task_id }) && task_id@ == dep
        &&& h.edge_list() == g.edge_list()
    } else if !g.tasks().contains_key(pre) {
        &&& r matches Err(CoordinationError::TaskNotFound { task_id }) && task_id@ == pre
        &&& h.edge_list() == g.edge_list()
    } else if g.links().contains((dep, pre)) {
        &&& r matches Err(CoordinationError::DependencyAlreadyExists { from, to }) && from@ == pre && to@ == dep
        &&& h.edge_list() == g.edge_list()
    } else if reaches(g.links(), pre, dep) {
        &&& r matches Err(CoordinationError::CyclicDependency { from, to }) && from@ == pre && to@ == dep
        &&& h.edge_list() == g.edge_list()
    } else {
        &&& r is Ok
        &&& h.edge_list().len() == g.edge_list().len() + 1
        &&& h.edge_list().drop_last() == g.edge_list()
        &&& h.edge_list().last().dependent@ == dep
        &&& h.edge_list().last().prerequisite@ == pre
        &&& h.edge_list().last().required_artifacts == req
    }
}

/// The text of an error, as the protocol reports it.
pub open spec fn error_text(e: CoordinationError) -> Seq<char> {
    match e {
        CoordinationError::TaskNotFound { task_id } => "Task not found: "@ + task_id@,
        CoordinationError::CyclicDependency { from, to } => "Cyclic dependency detected: "@ + from@ + " -> "@ + to@,
        CoordinationError::TaskAlreadyExists { task_id } => "Task already exists: "@ + task_id@,
        CoordinationError::DependencyAlreadyExists { from, to } => "Dependency already exists: "@ + from@ + " -> "@ + to@,
        CoordinationError::PrerequisitesNotMet { task_id, missing } => "Prerequisites not met for task "@ + task_id@
            + ": missing "@ + debug_of_strings(strings_view(missing@)),
        CoordinationError::InvalidState { task_id, state } => "Invalid state for operation: task "@ + task_id@
            + " is in state "@ + state_name(state),
    }
}

impl CoordinationError {
    /// The text of the error.
    pub fn message(&self) -> (r: String)
        ensures
            r@ == error_text(*self),
    {
        let mut m = String::new();
        match self {
            CoordinationError::TaskNotFound { task_id } => {
                push_str(&mut m, "Task not found: ");
                push_str(&mut m, task_id.as_str());
            },
            CoordinationError::CyclicDependency { from, to } => {
                push_str(&mut m, "Cyclic dependency detected: ");
                push_str(&mut m, from.as_str());
                push_str(&mut m, " -> ");
                push_str(&mut m, to.as_str());
            },
            CoordinationError::TaskAlreadyExists { task_id } => {
                push_str(&mut m, "Task already exists: ");
                push_str(&mut m, task_id.as_str());
            },
            CoordinationError::DependencyAlreadyExists { from, to } => {
                push_str(&mut m, "Dependency already exists: ");
                push_str(&mut m, from.as_str());
                push_str(&mut m, " -> ");
                push_str(&mut m, to.as_str());
            },
            CoordinationError::PrerequisitesNotMet { task_id, missing } => {
                push_str(&mut m, "Prerequisites not met for task ");
                push_str(&mut m, task_id.as_str());
                push_str(&mut m, ": missing ");
                push_str(&mut m, debug_strings(missing).as_str());
            },
            CoordinationError::InvalidState { task_id, state } => {
                push_str(&mut m, "Invalid state for operation: task ");
                push_str(&mut m, task_id.as_str());
                push_str(&mut m, " is in state ");
                push_str(&mut m, state_name_str(state));
            },
        }
        proof {
            assert(m@ =~= error_text(*self));
        }
        m
    }
}

/// Tasks and the dependency edges between them.
#[derive(Debug, Clone)]
pub struct TaskGraph {
    nodes: StrMap<Task>,
    edges: Vec<DependencyEdge>,
}

impl TaskGraph {
    /// The tasks, by id.
    pub closed spec fn tasks(&self) -> Map<Seq<char>, Task> {
        self.nodes.map()
    }

    /// The task ids, in increasing string order.
    pub closed spec fn task_order(&self) -> Seq<Seq<char>> {
        self.nodes.keys()
    }

    /// The dependency edges, in the order they were added.
    pub closed spec fn edge_list(&self) -> Seq<DependencyEdge> {
        self.edges@
    }

    /// The `(dependent, prerequisite)` links.
    pub open spec fn links(&self) -> Seq<(Seq<char>, Seq<char>)> {
        pairs_of(self.edge_list())
    }

    /// Every task is filed under its id, every edge joins two tasks of the
    /// graph, no link occurs twice, and the links hold no cycle.
    pub closed spec fn wf(&self) -> bool {
        &&& self.nodes.wf()
        &&& forall|k: Seq<char>| #[trigger] self.tasks().contains_key(k) ==> self.tasks()[k].id@ == k
        &&& forall|i: int| 0 <= i < self.edges@.len() ==> #[trigger] self.tasks().contains_key(self.edges@[i].dependent@)
            && self.tasks().contains_key(self.edges@[i].prerequisite@)
        &&& forall|i: int, j: int| 0 <= i < j < self.links().len() ==> #[trigger] self.links()[i] != #[trigger] self.links()[j]
        &&& acyclic(self.links())
    }

    /// Every edge into `id` is satisfied.
    pub open spec fn prereqs_met(&self, id: Seq<char>) -> bool {
        forall|i: int| 0 <= i < self.edge_list().len() && #[trigger] self.edge_list()[i].dependent@ == id
            ==> edge_met(self.tasks(), self.edge_list()[i])
    }

    /// Canceling `id` cancels `x`: `id` can be canceled, and `x` is reached
    /// from it through dependents that can all be canceled.
    pub open spec fn canceled_by(&self, id: Seq<char>, x: Seq<char>) -> bool {
        &&& cancellable(self.tasks()[id].status.state)
        &&& reaches(cancel_links(self.tasks(), self.edge_list()), id, x)
    }

    /// `s` lists every task once, each after all its prerequisites.
    pub open spec fn topological(&self, s: Seq<Seq<char>>) -> bool {
        &&& s.no_duplicates()
        &&& forall|x: Seq<char>| #[trigger] s.contains(x) <==> self.tasks().contains_key(x)
        &&& forall|i: int, j: int| 0 <= i < s.len() && 0 <= j < s.len() && #[trigger] self.links().contains((s[j], s[i])) ==> i < j
    }

    proof fn lemma_link(&self, i: int)
        requires
            self.wf(),
            0 <= i < self.links().len(),
        ensures
            self.links()[i] == (self.edges@[i].dependent@, self.edges@[i].prerequisite@),
            self.tasks().contains_key(self.links()[i].0),
            self.tasks().contains_key(self.links()[i].1),
    {
        assert(self.tasks().contains_key(self.edges@[i].dependent@));
    }

    /// An empty graph.
    pub fn new() -> (g: Self)
        ensures
            g.wf(),
            g.tasks() == Map::<Seq<char>, Task>::empty(),
            g.edge_list() == Seq::<DependencyEdge>::empty(),
    {
        let g = TaskGraph { nodes: StrMap::new(), edges: Vec::new() };
        proof {
            assert forall|p: Seq<Seq<char>>| #[trigger] is_walk(g.links(), p) && p.len() >= 2 implies p[0] != p.last() by {
                assert(link_at(g.links(), p, 0));
            }
        }
        g
    }

    /// Adds a task; a task with the same id must not be there yet.
    pub fn add_task(&mut self, task: Task) -> (r: Result<(), CoordinationError>)
        requires
            old(self).wf(),
        ensures
            final(self).wf(),
            final(self).edge_list() == old(self).edge_list(),
            old(self).tasks().contains_key(task.id@) ==> (r matches Err(CoordinationError::TaskAlreadyExists { task_id })
                && task_id@ == task.id@ && final(self).tasks() == old(self).tasks()),
            !old(self).tasks().contains_key(task.id@) ==> r is Ok && final(self).tasks() == old(self).tasks().insert(task.id@, task),
    {
        if self.nodes.contains_key(task.id.as_str()) {
            return Err(CoordinationError::TaskAlreadyExists { task_id: task.id.clone() });
        }
        let id = task.id.clone();
        let ghost t = task;
        let ghost before = *self;
        self.nodes.insert(id, task);
        proof {
            assert forall|i: int| 0 <= i < self.edges@.len() implies #[trigger] self.tasks().contains_key(self.edges@[i].dependent@)
                && self.tasks().contains_key(self.edges@[i].prerequisite@) by {
                assert(before.tasks().contains_key(before.edges@[i].dependent@));
            }
            assert forall|k: Seq<char>| #[trigger] self.tasks().contains_key(k) implies self.tasks()[k].id@ == k by {
                if k != t.id@ {
                    assert(before.tasks().contains_key(k));
                }
            }
        }
        Ok(())
    }

    /// `true` iff the link `(dep, pre)` is there.
    pub(crate) fn has_link(&self, dep: &str, pre: &str) -> (r: bool)
        ensures
            r == self.links().contains((dep@, pre@)),
    {
        let mut i: usize = 0;
        while i < self.edges.len()
            invariant
                i <= self.edges@.len(),
                forall|j: int| 0 <= j < i ==> #[trigger] self.links()[j] != (dep@, pre@),
            decreases self.edges@.len() - i,
        {
            if str_eq(self.edges[i].dependent.as_str(), dep) && str_eq(self.edges[i].prerequisite.as_str(), pre) {
                assert(self.links()[i as int] == (dep@, pre@));
                return true;
            }
            assert(self.links()[i as int] == (self.edges@[i as int].dependent@, self.edges@[i as int].prerequisite@));
            i = i + 1;
        }
        proof {
            if self.links().contains((dep@, pre@)) {
                let j = choose|j: int| 0 <= j < self.links().len() && self.links()[j] == (dep@, pre@);
                assert(self.links()[j] != (dep@, pre@));
            }
        }
        false
    }

    /// The links as owned string pairs.
    fn link_vec(&self) -> (r: Vec<(String, String)>)
        ensures
            pair_views(r@) == self.links(),
    {
        let mut r: Vec<(String, String)> = Vec::new();
        let mut i: usize = 0;
        while i < self.edges.len()
            invariant
                i <= self.edges@.len(),
                pair_views(r@) == pairs_of(self.edges@.take(i as int)),
            decreases self.edges@.len() - i,
        {
            let ghost before = r@;
            r.push((self.edges[i].dependent.clone(), self.edges[i].prerequisite.clone()));
            assert(pair_views(r@) =~= pair_views(before).push((self.edges@[i as int].dependent@, self.edges@[i as int].prerequisite@)));
            assert(pairs_of(self.edges@.take(i + 1)) =~= pairs_of(self.edges@.take(i as int)).push(
                (self.edges@[i as int].dependent@, self.edges@[i as int].prerequisite@)));
            i = i + 1;
        }
        assert(self.edges@.take(i as int) =~= self.edges@);
        r
    }

    /// Makes `dependent_id` wait for `prerequisite_id`; both must be tasks of
    /// the graph, the dependency must be new, and it must not close a cycle.
    pub fn add_dependency(&mut self, dependent_id: &str, prerequisite_id: &str) -> (r: Result<(), CoordinationError>)
        requires
            old(self).wf(),
        ensures
            final(self).wf(),
            dependency_added(*old(self), *final(self), dependent_id@, prerequisite_id@, None, r),
    {
        self.add_dependency_with_artifacts(dependent_id, prerequisite_id, None)
    }

    /// Makes `dependent_id` wait for `prerequisite_id` and, when given, for
    /// the listed artifacts of it.
    pub fn add_dependency_with_artifacts(
        &mut self,
        dependent_id: &str,
        prerequisite_id: &str,
        required_artifacts: Option<Vec<String>>,
    ) -> (r: Result<(), CoordinationError>)
        requires
            old(self).wf(),
        ensures
            final(self).wf(),
            dependency_added(*old(self), *final(self), dependent_id@, prerequisite_id@, required_artifacts, r),
    {
        if !self.nodes.contains_key(dependent_id) {
            return Err(CoordinationError::TaskNotFound { task_id: owned(dependent_id) });
        }
        if !self.nodes.contains_key(prerequisite_id) {
            return Err(CoordinationError::TaskNotFound { task_id: owned(prerequisite_id) });
        }
        if self.has_link(dependent_id, prerequisite_id) {
            return Err(CoordinationError::DependencyAlreadyExists { from: owned(prerequisite_id), to: owned(dependent_id) });
        }
        let links = self.link_vec();
        let reached = reach_set(&links, prerequisite_id);
        if contains_str(&reached, dependent_id) {
            return Err(CoordinationError::CyclicDependency { from: owned(prerequisite_id), to: owned(dependent_id) });
        }
        let ghost before = *self;
        let ghost req = required_artifacts;
        proof {
            lemma_add_edge_acyclic(before.links(), dependent_id@, prerequisite_id@);
        }
        self.edges.push(DependencyEdge {
            dependent: owned(dependent_id),
            prerequisite: owned(prerequisite_id),
            required_artifacts,
        });
        proof {
            assert(self.links() =~= before.links().push((dependent_id@, prerequisite_id@)));
            assert(self.edge_list().drop_last() =~= before.edge_list());
            assert forall|i: int| 0 <= i < self.edges@.len() implies #[trigger] self.tasks().contains_key(self.edges@[i].dependent@)
                && self.tasks().contains_key(self.edges@[i].prerequisite@) by {
                if i < before.edges@.len() {
                    assert(self.edges@[i] == before.edges@[i]);
                    assert(before.tasks().contains_key(before.edges@[i].dependent@));
                }
            }
            assert forall|i: int, j: int| 0 <= i < j < self.links().len() implies #[trigger] self.links()[i] != #[trigger] self.links()[j] by {
                if j == before.links().len() {
                    if self.links()[i] == self.links()[j] {
                        assert(before.links()[i] == (dependent_id@, prerequisite_id@));
                        assert(before.links().contains((dependent_id@, prerequisite_id@)));
                    }
                } else {
                    assert(self.links()[i] == before.links()[i]);
                    assert(self.links()[j] == before.links()[j]);
                }
            }
        }
        Ok(())
    }

    /// The task with this id, if any.
    pub fn get_task(&self, task_id: &str) -> (r: Option<&Task>)
        requires
            self.wf(),
        ensures
            r == (if self.tasks().contains_key(task_id@) { Some(&self.tasks()[task_id@]) } else { None }),
    {
        self.nodes.get(task_id)
    }

    /// Replaces the task with the same id; it must be there.
    pub fn update_task(&mut self, task: Task) -> (r: Result<(), CoordinationError>)
        requires
            old(self).wf(),
        ensures
            final(self).wf(),
            final(self).edge_list() == old(self).edge_list(),
            old(self).tasks().contains_key(task.id@) ==> r is Ok && final(self).tasks() == old(self).tasks().insert(task.id@, task),
            !old(self).tasks().contains_key(task.id@) ==> (r matches Err(CoordinationError::TaskNotFound { task_id })
                && task_id@ == task.id@ && final(self).tasks() == old(self).tasks()),
    {
        if !self.nodes.contains_key(task.id.as_str()) {
            return Err(CoordinationError::TaskNotFound { task_id: task.id.clone() });
        }
        let id = task.id.clone();
        let ghost t = task;
        let ghost before = *self;
        self.nodes.insert(id, task);
        proof {
            assert forall|i: int| 0 <= i < self.edges@.len() implies #[trigger] self.tasks().contains_key(self.edges@[i].dependent@)
                && self.tasks().contains_key(self.edges@[i].prerequisite@) by {
                assert(before.tasks().contains_key(before.edges@[i].dependent@));
            }
            assert forall|k: Seq<char>| #[trigger] self.tasks().contains_key(k) implies self.tasks()[k].id@ == k by {
                if k != t.id@ {
                    assert(before.tasks().contains_key(k));
                }
            }
        }
        Ok(())
    }
}

/// What a scan of the links looks for.
enum LinkQuery {
    Prerequisites,
    Dependents,
    Unmet,
}

/// What a scan of the tasks keeps.
enum Selection {
    Ready,
    Finished,
    Root,
    Leaf,
    All,
}

/// `true` iff one of the task's artifacts has this id.
fn has_artifact(t: &Task, id: &str) -> (r: bool)
    ensures
        r == artifact_ids(t@).contains(id@),
{
    match &t.artifacts {
        None => {
            assert(artifact_ids(t@) =~= Seq::<Seq<char>>::empty());
            false
        },
        Some(a) => {
            let ghost ids = artifact_ids(t@);
            assert(ids.len() == a@.len());
            let mut i: usize = 0;
            while i < a.len()
                invariant
                    ids == artifact_ids(t@),
                    t.artifacts == Some(*a),
                    ids.len() == a@.len(),
                    i <= a@.len(),
                    forall|j: int| 0 <= j < i ==> ids[j] != id@,
                decreases a@.len() - i,
            {
                assert(ids[i as int] == a@[i as int].artifact_id@);
                if str_eq(a[i].artifact_id.as_str(), id) {
                    assert(ids[i as int] == id@);
                    return true;
                }
                i = i + 1;
            }
            proof {
                if ids.contains(id@) {
                    let j = choose|j: int| 0 <= j < ids.len() && ids[j] == id@;
                    assert(ids[j] != id@);
                }
            }
            false
        },
    }
}

impl TaskGraph {
    /// The link of edge `k` matched against the query, and its other end.
    spec fn hit(&self, q: LinkQuery, id: Seq<char>, k: int) -> Option<Seq<char>> {
        let l = self.links()[k];
        match q {
            LinkQuery::Prerequisites => if l.0 == id { Some(l.1) } else { None },
            LinkQuery::Dependents => if l.1 == id { Some(l.0) } else { None },
            LinkQuery::Unmet => if l.0 == id && self.tasks()[l.1].status.state != TaskState::Completed {
                Some(l.1)
            } else {
                None
            },
        }
    }

    /// The satisfaction of one edge whose prerequisite is in the graph.
    fn edge_met_exec(&self, e: &DependencyEdge) -> (r: bool)
        requires
            self.wf(),
            self.tasks().contains_key(e.prerequisite@),
        ensures
            r == edge_met(self.tasks(), *e),
    {
        let t = match self.nodes.get(e.prerequisite.as_str()) {
            Some(t) => t,
            None => {
                return false;
            },
        };
        let st = t.status.state;
        if !(st == TaskState::Completed || st == TaskState::Failed || st == TaskState::Canceled) {
            return false;
        }
        match &e.required_artifacts {
            None => true,
            Some(req) => {
                let mut j: usize = 0;
                while j < req.len()
                    invariant
                        j <= req@.len(),
                        *t == self.tasks()[e.prerequisite@],
                        prereq_finished(t.status.state),
                        e.required_artifacts == Some(*req),
                        forall|k: int| 0 <= k < j ==> artifact_ids(t@).contains(#[trigger] req@[k]@),
                    decreases req@.len() - j,
                {
                    if !has_artifact(t, req[j].as_str()) {
                        assert(!artifact_ids(self.tasks()[e.prerequisite@]@).contains(req@[j as int]@));
                        assert(e.required_artifacts->Some_0@[j as int]@ == req@[j as int]@);
                        assert(!edge_met(self.tasks(), *e));
                        return false;
                    }
                    j = j + 1;
                }
                true
            },
        }
    }

    /// Whether every edge into `id` is satisfied.
    fn prereqs_met_exec(&self, id: &str) -> (r: bool)
        requires
            self.wf(),
        ensures
            r == self.prereqs_met(id@),
    {
        let mut i: usize = 0;
        while i < self.edges.len()
            invariant
                self.wf(),
                i <= self.edges@.len(),
                forall|k: int| 0 <= k < i && #[trigger] self.edge_list()[k].dependent@ == id@
                    ==> edge_met(self.tasks(), self.edge_list()[k]),
            decreases self.edges@.len() - i,
        {
            if str_eq(self.edges[i].dependent.as_str(), id) {
                assert(self.tasks().contains_key(self.edges@[i as int].dependent@));
                if !self.edge_met_exec(&self.edges[i]) {
                    return false;
                }
            }
            i = i + 1;
        }
        true
    }

    /// Whether the prerequisites of a task are met: each prerequisite has
    /// completed and holds the artifacts its edge requires.
    pub fn prerequisites_met(&self, task_id: &str) -> (r: Result<bool, CoordinationError>)
        requires
            self.wf(),
        ensures
            self.tasks().contains_key(task_id@) ==> (r matches Ok(b) && b == self.prereqs_met(task_id@)),
            !self.tasks().contains_key(task_id@) ==> (r matches Err(CoordinationError::TaskNotFound { task_id: t })
                && t@ == task_id@),
    {
        if !self.nodes.contains_key(task_id) {
            return Err(CoordinationError::TaskNotFound { task_id: owned(task_id) });
        }
        Ok(self.prereqs_met_exec(task_id))
    }

    /// The other ends of the links that match the query, each once.
    fn links_where(&self, q: LinkQuery, id: &str) -> (r: Vec<String>)
        requires
            self.wf(),
        ensures
            strings_view(r@).no_duplicates(),
            forall|x: Seq<char>| #[trigger] strings_view(r@).contains(x)
                <==> exists|k: int| 0 <= k < self.links().len() && #[trigger] self.hit(q, id@, k) == Some(x),
    {
        let mut out: Vec<String> = Vec::new();
        let mut i: usize = 0;
        while i < self.edges.len()
            invariant
                self.wf(),
                i <= self.edges@.len(),
                strings_view(out@).no_duplicates(),
                forall|x: Seq<char>| #[trigger] strings_view(out@).contains(x)
                    <==> exists|k: int| 0 <= k < i && #[trigger] self.hit(q, id@, k) == Some(x),
            decreases self.edges@.len() - i,
        {
            let ghost cur = strings_view(out@);
            proof {
                self.lemma_link(i as int);
            }
            let e = &self.edges[i];
            let found: Option<&String> = match q {
                LinkQuery::Prerequisites => if str_eq(e.dependent.as_str(), id) { Some(&e.prerequisite) } else { None },
                LinkQuery::Dependents => if str_eq(e.prerequisite.as_str(), id) { Some(&e.dependent) } else { None },
                LinkQuery::Unmet => {
                    if str_eq(e.dependent.as_str(), id) {
                        let done = match self.nodes.get(e.prerequisite.as_str()) {
                            Some(t) => t.status.state == TaskState::Completed,
                            None => true,
                        };
                        if done { None } else { Some(&e.prerequisite) }
                    } else {
                        None
                    }
                },
            };
            assert(found matches Some(s) ==> self.hit(q, id@, i as int) == Some(s@));
            assert(found is None ==> self.hit(q, id@, i as int) is None);
            match found {
                Some(s) => {
                    proof {
                        if cur.contains(s@) {
                            let k = choose|k: int| 0 <= k < i && #[trigger] self.hit(q, id@, k) == Some(s@);
                            assert(self.links()[k] == self.links()[i as int]);
                        }
                        lemma_push_distinct(cur, s@);
                    }
                    out.push(s.clone());
                    proof {
                        assert(strings_view(out@) =~= cur.push(s@));
                        assert forall|x: Seq<char>| #[trigger] strings_view(out@).contains(x)
                            <==> exists|k: int| 0 <= k < i + 1 && #[trigger] self.hit(q, id@, k) == Some(x) by {
                            if x != s@ && strings_view(out@).contains(x) {
                                let m = choose|m: int| 0 <= m < strings_view(out@).len() && strings_view(out@)[m] == x;
                                assert(cur[m] == x);
                                assert(cur.contains(x));
                            }
                            if exists|k: int| 0 <= k < i && #[trigger] self.hit(q, id@, k) == Some(x) {
                                assert(cur.contains(x));
                            }
                        }
                    }
                },
                None => {},
            }
            i = i + 1;
        }
        out
    }

    /// The prerequisites of a task that have not completed, each once.
    pub fn unmet_prerequisites(&self, task_id: &str) -> (r: Result<Vec<String>, CoordinationError>)
        requires
            self.wf(),
        ensures
            self.tasks().contains_key(task_id@) ==> (r matches Ok(v) && strings_view(v@).no_duplicates()
                && forall|x: Seq<char>| #[trigger] strings_view(v@).contains(x) <==> self.links().contains((task_id@, x))
                    && self.tasks()[x].status.state != TaskState::Completed),
            !self.tasks().contains_key(task_id@) ==> (r matches Err(CoordinationError::TaskNotFound { task_id: t })
                && t@ == task_id@),
    {
        if !self.nodes.contains_key(task_id) {
            return Err(CoordinationError::TaskNotFound { task_id: owned(task_id) });
        }
        let v = self.links_where(LinkQuery::Unmet, task_id);
        proof {
            assert forall|x: Seq<char>| #[trigger] strings_view(v@).contains(x) <==> self.links().contains((task_id@, x))
                && self.tasks()[x].status.state != TaskState::Completed by {
                if self.links().contains((task_id@, x)) && self.tasks()[x].status.state != TaskState::Completed {
                    let k = choose|k: int| 0 <= k < self.links().len() && self.links()[k] == (task_id@, x);
                    assert(self.hit(LinkQuery::Unmet, task_id@, k) == Some(x));
                }
            }
        }
        Ok(v)
    }

    /// The prerequisites of a task, each once, if the task is there.
    pub fn dependencies(&self, task_id: &str) -> (r: Option<Vec<String>>)
        requires
            self.wf(),
        ensures
            r is Some <==> self.tasks().contains_key(task_id@),
            r matches Some(v) ==> strings_view(v@).no_duplicates()
                && forall|x: Seq<char>| #[trigger] strings_view(v@).contains(x) <==> self.links().contains((task_id@, x)),
    {
        if !self.nodes.contains_key(task_id) {
            return None;
        }
        let v = self.links_where(LinkQuery::Prerequisites, task_id);
        proof {
            assert forall|x: Seq<char>| #[trigger] strings_view(v@).contains(x) <==> self.links().contains((task_id@, x)) by {
                if self.links().contains((task_id@, x)) {
                    let k = choose|k: int| 0 <= k < self.links().len() && self.links()[k] == (task_id@, x);
                    assert(self.hit(LinkQuery::Prerequisites, task_id@, k) == Some(x));
                }
            }
        }
        Some(v)
    }

    /// The tasks that wait directly for a task, each once, if the task is
    /// there.
    pub fn dependents(&self, task_id: &str) -> (r: Option<Vec<String>>)
        requires
            self.wf(),
        ensures
            r is Some <==> self.tasks().contains_key(task_id@),
            r matches Some(v) ==> strings_view(v@).no_duplicates()
                && forall|x: Seq<char>| #[trigger] strings_view(v@).contains(x) <==> self.links().contains((x, task_id@)),
    {
        if !self.nodes.contains_key(task_id) {
            return None;
        }
        let v = self.links_where(LinkQuery::Dependents, task_id);
        proof {
            assert forall|x: Seq<char>| #[trigger] strings_view(v@).contains(x) <==> self.links().contains((x, task_id@)) by {
                if self.links().contains((x, task_id@)) {
                    let k = choose|k: int| 0 <= k < self.links().len() && self.links()[k] == (x, task_id@);
                    assert(self.hit(LinkQuery::Dependents, task_id@, k) == Some(x));
                }
            }
        }
        Some(v)
    }
}

impl TaskGraph {
    /// Whether the task `k` is kept by the selection.
    spec fn selected(&self, sel: Selection, k: Seq<char>) -> bool {
        match sel {
            Selection::Ready => self.tasks()[k].status.state == TaskState::Submitted && self.prereqs_met(k),
            Selection::Finished => finished(self.tasks()[k].status.state),
            Selection::Root => forall|i: int| 0 <= i < self.links().len() ==> #[trigger] self.links()[i].0 != k,
            Selection::Leaf => forall|i: int| 0 <= i < self.links().len() ==> #[trigger] self.links()[i].1 != k,
            Selection::All => true,
        }
    }

    /// Whether some link starts (`from`) or ends (`!from`) at `k`.
    fn touches(&self, k: &str, from: bool) -> (r: bool)
        ensures
            from ==> r == exists|i: int| 0 <= i < self.links().len() && #[trigger] self.links()[i].0 == k@,
            !from ==> r == exists|i: int| 0 <= i < self.links().len() && #[trigger] self.links()[i].1 == k@,
    {
        let mut i: usize = 0;
        while i < self.edges.len()
            invariant
                i <= self.edges@.len(),
                from ==> forall|j: int| 0 <= j < i ==> #[trigger] self.links()[j].0 != k@,
                !from ==> forall|j: int| 0 <= j < i ==> #[trigger] self.links()[j].1 != k@,
            decreases self.edges@.len() - i,
        {
            assert(self.links()[i as int] == (self.edges@[i as int].dependent@, self.edges@[i as int].prerequisite@));
            let end = if from { &self.edges[i].dependent } else { &self.edges[i].prerequisite };
            if str_eq(end.as_str(), k) {
                proof {
                    if from {
                        assert(self.links()[i as int].0 == k@);
                    } else {
                        assert(self.links()[i as int].1 == k@);
                    }
                }
                return true;
            }
            i = i + 1;
        }
        false
    }

    /// Whether the task `k`, which is `t`, is kept by the selection.
    fn selects(&self, sel: &Selection, k: &str, t: &Task) -> (r: bool)
        requires
            self.wf(),
            self.tasks().contains_key(k@),
            self.tasks()[k@] == *t,
        ensures
            r == self.selected(*sel, k@),
    {
        match sel {
            Selection::Ready => t.status.state == TaskState::Submitted && self.prereqs_met_exec(k),
            Selection::Finished => {
                let s = t.status.state;
                s == TaskState::Completed || s == TaskState::Failed || s == TaskState::Canceled
                    || s == TaskState::Rejected || s == TaskState::Unknown
            },
            Selection::Root => !self.touches(k, true),
            Selection::Leaf => !self.touches(k, false),
            Selection::All => true,
        }
    }

    /// The ids of the tasks the selection keeps, in id order.
    fn ids_where(&self, sel: Selection) -> (r: Vec<String>)
        requires
            self.wf(),
        ensures
            strings_view(r@).no_duplicates(),
            forall|x: Seq<char>| #[trigger] strings_view(r@).contains(x)
                <==> self.tasks().contains_key(x) && self.selected(sel, x),
            sel is All ==> strings_view(r@) == self.task_order(),
    {
        let entries = self.nodes.iter_pairs();
        proof {
            self.nodes.lemma_entries();
        }
        let mut out: Vec<String> = Vec::new();
        let mut j: usize = 0;
        while j < entries.len()
            invariant
                self.wf(),
                entries@.len() == self.nodes.keys().len(),
                forall|i: int| 0 <= i < entries@.len() ==> (#[trigger] entries@[i]).0@ == self.nodes.keys()[i]
                    && *entries@[i].1 == self.nodes.vals()[i],
                forall|i: int| #![trigger self.nodes.keys()[i]] 0 <= i < self.nodes.keys().len()
                    ==> self.tasks().contains_key(self.nodes.keys()[i]) && self.tasks()[self.nodes.keys()[i]] == self.nodes.vals()[i],
                j <= entries@.len(),
                strings_view(out@).no_duplicates(),
                forall|x: Seq<char>| #[trigger] strings_view(out@).contains(x)
                    <==> exists|i: int| 0 <= i < j && #[trigger] self.nodes.keys()[i] == x && self.selected(sel, x),
                sel is All ==> strings_view(out@) == self.nodes.keys().take(j as int),
            decreases entries@.len() - j,
        {
            let ghost cur = strings_view(out@);
            let ghost k = self.nodes.keys()[j as int];
            assert(entries@[j as int].0@ == k);
            let (key, task) = entries[j];
            if self.selects(&sel, key.as_str(), task) {
                proof {
                    if cur.contains(k) {
                        let i = choose|i: int| 0 <= i < j && #[trigger] self.nodes.keys()[i] == k && self.selected(sel, k);
                        lemma_key_unique(self.nodes.keys(), i, j as int);
                    }
                    lemma_push_distinct(cur, k);
                }
                out.push(key.clone());
                proof {
                    assert(strings_view(out@) =~= cur.push(k));
                    assert(self.nodes.keys().take(j + 1) =~= self.nodes.keys().take(j as int).push(k));
                    assert forall|x: Seq<char>| #[trigger] strings_view(out@).contains(x)
                        <==> exists|i: int| 0 <= i < j + 1 && #[trigger] self.nodes.keys()[i] == x && self.selected(sel, x) by {
                        if x != k && strings_view(out@).contains(x) {
                            let m = choose|m: int| 0 <= m < strings_view(out@).len() && strings_view(out@)[m] == x;
                            assert(cur[m] == x);
                            assert(cur.contains(x));
                        }
                        if exists|i: int| 0 <= i < j && #[trigger] self.nodes.keys()[i] == x && self.selected(sel, x) {
                            assert(cur.contains(x));
                        }
                    }
                }
            }
            j = j + 1;
        }
        proof {
            assert(self.nodes.keys().take(j as int) =~= self.nodes.keys());
            assert forall|x: Seq<char>| #[trigger] strings_view(out@).contains(x)
                <==> self.tasks().contains_key(x) && self.selected(sel, x) by {
                if self.tasks().contains_key(x) {
                    assert(has_key(self.nodes.keys(), x));
                    let i = choose|i: int| 0 <= i < self.nodes.keys().len() && #[trigger] self.nodes.keys()[i] == x;
                }
            }
        }
        out
    }

    /// The tasks that can start now: submitted, with their prerequisites met.
    pub fn ready_tasks(&self) -> (r: Vec<String>)
        requires
            self.wf(),
        ensures
            strings_view(r@).no_duplicates(),
            forall|x: Seq<char>| #[trigger] strings_view(r@).contains(x) <==> self.tasks().contains_key(x)
                && self.tasks()[x].status.state == TaskState::Submitted && self.prereqs_met(x),
    {
        self.ids_where(Selection::Ready)
    }

    /// The tasks in a finished state.
    pub fn terminal_tasks(&self) -> (r: Vec<String>)
        requires
            self.wf(),
        ensures
            strings_view(r@).no_duplicates(),
            forall|x: Seq<char>| #[trigger] strings_view(r@).contains(x) <==> self.tasks().contains_key(x)
                && finished(self.tasks()[x].status.state),
    {
        self.ids_where(Selection::Finished)
    }

    /// The tasks that wait for no other task.
    pub fn root_tasks(&self) -> (r: Vec<String>)
        requires
            self.wf(),
        ensures
            strings_view(r@).no_duplicates(),
            forall|x: Seq<char>| #[trigger] strings_view(r@).contains(x) <==> self.tasks().contains_key(x)
                && forall|i: int| 0 <= i < self.links().len() ==> #[trigger] self.links()[i].0 != x,
    {
        self.ids_where(Selection::Root)
    }

    /// The tasks no other task waits for.
    pub fn leaf_tasks(&self) -> (r: Vec<String>)
        requires
            self.wf(),
        ensures
            strings_view(r@).no_duplicates(),
            forall|x: Seq<char>| #[trigger] strings_view(r@).contains(x) <==> self.tasks().contains_key(x)
                && forall|i: int| 0 <= i < self.links().len() ==> #[trigger] self.links()[i].1 != x,
    {
        self.ids_where(Selection::Leaf)
    }

    /// The ids of all tasks, in id order.
    pub fn task_ids(&self) -> (r: Vec<String>)
        requires
            self.wf(),
        ensures
            strings_view(r@) == self.task_order(),
            strings_view(r@).no_duplicates(),
            forall|x: Seq<char>| #[trigger] strings_view(r@).contains(x) <==> self.tasks().contains_key(x),
    {
        self.ids_where(Selection::All)
    }

    /// `true` iff every task is in a finished state.
    pub fn is_terminated(&self) -> (r: bool)
        requires
            self.wf(),
        ensures
            r == forall|k: Seq<char>| #[trigger] self.tasks().contains_key(k) ==> finished(self.tasks()[k].status.state),
    {
        let vals = self.nodes.values();
        proof {
            self.nodes.lemma_entries();
        }
        let mut j: usize = 0;
        while j < vals.len()
            invariant
                self.wf(),
                vals@.len() == self.nodes.vals().len(),
                self.nodes.vals().len() == self.nodes.keys().len(),
                forall|i: int| 0 <= i < vals@.len() ==> *vals@[i] == self.nodes.vals()[i],
                forall|i: int| #![trigger self.nodes.keys()[i]] 0 <= i < self.nodes.keys().len()
                    ==> self.tasks().contains_key(self.nodes.keys()[i]) && self.tasks()[self.nodes.keys()[i]] == self.nodes.vals()[i],
                forall|k: Seq<char>| #[trigger] self.tasks().contains_key(k) <==> has_key(self.nodes.keys(), k),
                j <= vals@.len(),
                forall|i: int| 0 <= i < j ==> finished(#[trigger] self.nodes.vals()[i].status.state),
            decreases vals@.len() - j,
        {
            let s = vals[j].status.state;
            if !(s == TaskState::Completed || s == TaskState::Failed || s == TaskState::Canceled
                || s == TaskState::Rejected || s == TaskState::Unknown) {
                proof {
                    let k = self.nodes.keys()[j as int];
                    assert(self.tasks()[k] == self.nodes.vals()[j as int]);
                    assert(!finished(self.tasks()[k].status.state));
                }
                return false;
            }
            j = j + 1;
        }
        proof {
            assert forall|k: Seq<char>| #[trigger] self.tasks().contains_key(k) implies finished(self.tasks()[k].status.state) by {
                let i = choose|i: int| 0 <= i < self.nodes.keys().len() && #[trigger] self.nodes.keys()[i] == k;
                assert(self.tasks()[self.nodes.keys()[i]] == self.nodes.vals()[i]);
            }
        }
        true
    }

    /// The number of tasks.
    pub fn task_count(&self) -> (r: usize)
        requires
            self.wf(),
        ensures
            r == self.tasks().dom().len(),
    {
        proof {
            lemma_dom_len(&self.nodes);
        }
        self.nodes.len()
    }

    /// The number of dependency edges.
    pub fn edge_count(&self) -> (r: usize)
        ensures
            r == self.edge_list().len(),
    {
        self.edges.len()
    }

    /// The artifacts of a prerequisite task (none if it has none).
    pub fn get_prerequisite_artifacts(&self, _task_id: &str, prerequisite_id: &str) -> (r: Result<Vec<Artifact>, CoordinationError>)
        requires
            self.wf(),
        ensures
            self.tasks().contains_key(prerequisite_id@) ==> (r matches Ok(v)
                && artifacts_view(v@) == artifacts_of(self.tasks()[prerequisite_id@]@)),
            !self.tasks().contains_key(prerequisite_id@) ==> (r matches Err(CoordinationError::TaskNotFound { task_id })
                && task_id@ == prerequisite_id@),
    {
        match self.nodes.get(prerequisite_id) {
            None => Err(CoordinationError::TaskNotFound { task_id: owned(prerequisite_id) }),
            Some(t) => match &t.artifacts {
                Some(a) => Ok(clone_artifacts(a)),
                None => {
                    let v: Vec<Artifact> = Vec::new();
                    assert(artifacts_view(v@) =~= Seq::<ArtifactView>::empty());
                    Ok(v)
                },
            },
        }
    }

    /// The artifacts of all prerequisites of a task, prerequisite after
    /// prerequisite in the order the dependencies were added.
    pub fn get_all_prerequisite_artifacts(&self, task_id: &str) -> (r: Result<Vec<Artifact>, CoordinationError>)
        requires
            self.wf(),
        ensures
            self.tasks().contains_key(task_id@) ==> (r matches Ok(v)
                && artifacts_view(v@) == gathered(self.tasks(), self.edge_list(), task_id@, self.edge_list().len() as int)),
            !self.tasks().contains_key(task_id@) ==> (r matches Err(CoordinationError::TaskNotFound { task_id: t })
                && t@ == task_id@),
    {
        if !self.nodes.contains_key(task_id) {
            return Err(CoordinationError::TaskNotFound { task_id: owned(task_id) });
        }
        let mut all: Vec<Artifact> = Vec::new();
        let mut i: usize = 0;
        while i < self.edges.len()
            invariant
                self.wf(),
                i <= self.edges@.len(),
                artifacts_view(all@) == gathered(self.tasks(), self.edge_list(), task_id@, i as int),
            decreases self.edges@.len() - i,
        {
            let ghost before = all@;
            if str_eq(self.edges[i].dependent.as_str(), task_id) {
                assert(self.tasks().contains_key(self.edges@[i as int].dependent@));
                match self.nodes.get(self.edges[i].prerequisite.as_str()) {
                    Some(t) => match &t.artifacts {
                        Some(a) => {
                            let mut more = clone_artifacts(a);
                            let ghost added = more@;
                            all.append(&mut more);
                            assert(artifacts_view(all@) =~= artifacts_view(before) + artifacts_view(added));
                        },
                        None => {
                            assert(artifacts_of(t@) =~= Seq::<ArtifactView>::empty());
                            assert(artifacts_view(all@) =~= artifacts_view(before) + artifacts_of(t@));
                        },
                    },
                    None => {},
                }
            } else {
                assert(artifacts_view(all@) =~= artifacts_view(before) + Seq::<ArtifactView>::empty());
            }
            i = i + 1;
        }
        Ok(all)
    }
}

/// The links along which cancellation spreads are the edges, read from
/// prerequisite to dependent, whose two ends can be canceled.
pub proof fn lemma_cancel_links(m: Map<Seq<char>, Task>, e: Seq<DependencyEdge>, a: Seq<char>, b: Seq<char>)
    ensures
        cancel_links(m, e).contains((a, b)) <==> exists|i: int| #![trigger e[i]] 0 <= i < e.len() && e[i].prerequisite@ == a
            && e[i].dependent@ == b && cancellable(m[a].status.state) && cancellable(m[b].status.state),
    decreases e.len(),
{
    if e.len() > 0 {
        let d = e.drop_last();
        lemma_cancel_links(m, d, a, b);
        let rest = cancel_links(m, d);
        let x = e.last();
        assert forall|i: int| 0 <= i < d.len() implies #[trigger] d[i] == e[i] by {}
        if cancel_links(m, e).contains((a, b)) {
            if rest.contains((a, b)) {
                let i = choose|i: int| #![trigger d[i]] 0 <= i < d.len() && d[i].prerequisite@ == a
                    && d[i].dependent@ == b && cancellable(m[a].status.state) && cancellable(m[b].status.state);
                assert(e[i] == d[i]);
            } else {
                let k = choose|k: int| 0 <= k < cancel_links(m, e).len() && cancel_links(m, e)[k] == (a, b);
                assert(cancel_links(m, e) == rest.push((x.prerequisite@, x.dependent@)));
                assert(k == rest.len());
                assert(e[e.len() - 1] == x);
            }
        }
        if exists|i: int| #![trigger e[i]] 0 <= i < e.len() && e[i].prerequisite@ == a
            && e[i].dependent@ == b && cancellable(m[a].status.state) && cancellable(m[b].status.state) {
            let i = choose|i: int| #![trigger e[i]] 0 <= i < e.len() && e[i].prerequisite@ == a
                && e[i].dependent@ == b && cancellable(m[a].status.state) && cancellable(m[b].status.state);
            if i < d.len() {
                assert(d[i] == e[i]);
                assert(rest.contains((a, b)));
                let k = choose|k: int| 0 <= k < rest.len() && rest[k] == (a, b);
                assert(cancel_links(m, e)[k] == (a, b));
            } else {
                assert(e[i] == x);
                assert(cancel_links(m, e) == rest.push((a, b)));
                assert(cancel_links(m, e)[rest.len() as int] == (a, b));
            }
        }
    }
}

impl TaskGraph {
    /// Where cancellation spreads from a task that can be canceled, every
    /// task it reaches can be canceled too, and is a task of the graph.
    proof fn lemma_cancel_reach(&self, id: Seq<char>, x: Seq<char>)
        requires
            self.wf(),
            self.tasks().contains_key(id),
            cancellable(self.tasks()[id].status.state),
            reaches(cancel_links(self.tasks(), self.edge_list()), id, x),
        ensures
            self.tasks().contains_key(x),
            cancellable(self.tasks()[x].status.state),
    {
        let cl = cancel_links(self.tasks(), self.edge_list());
        let p = choose|p: Seq<Seq<char>>| #[trigger] is_walk(cl, p) && p[0] == id && p.last() == x;
        if p.len() > 1 {
            let n = p.len() as int;
            assert(link_at(cl, p, n - 2));
            lemma_cancel_links(self.tasks(), self.edge_list(), p[n - 2], p[n - 1]);
            let i = choose|i: int| #![trigger self.edge_list()[i]] 0 <= i < self.edge_list().len()
                && self.edge_list()[i].prerequisite@ == p[n - 2] && self.edge_list()[i].dependent@ == p[n - 1]
                && cancellable(self.tasks()[p[n - 2]].status.state) && cancellable(self.tasks()[p[n - 1]].status.state);
            assert(self.tasks().contains_key(self.edges@[i].dependent@));
        }
    }

    /// The cancellation links as owned string pairs.
    fn cancel_link_vec(&self) -> (r: Vec<(String, String)>)
        requires
            self.wf(),
        ensures
            pair_views(r@) == cancel_links(self.tasks(), self.edge_list()),
    {
        let mut r: Vec<(String, String)> = Vec::new();
        let mut i: usize = 0;
        while i < self.edges.len()
            invariant
                self.wf(),
                i <= self.edges@.len(),
                pair_views(r@) == cancel_links(self.tasks(), self.edges@.take(i as int)),
            decreases self.edges@.len() - i,
        {
            let ghost before = r@;
            let e = &self.edges[i];
            assert(self.tasks().contains_key(self.edges@[i as int].dependent@));
            assert(self.edges@.take(i + 1).drop_last() =~= self.edges@.take(i as int));
            assert(self.edges@.take(i + 1).last() == self.edges@[i as int]);
            let pre_ok = match self.nodes.get(e.prerequisite.as_str()) {
                Some(t) => t.status.state == TaskState::Submitted || t.status.state == TaskState::Working
                    || t.status.state == TaskState::InputRequired,
                None => false,
            };
            let dep_ok = match self.nodes.get(e.dependent.as_str()) {
                Some(t) => t.status.state == TaskState::Submitted || t.status.state == TaskState::Working
                    || t.status.state == TaskState::InputRequired,
                None => false,
            };
            if pre_ok && dep_ok {
                r.push((e.prerequisite.clone(), e.dependent.clone()));
                assert(pair_views(r@) =~= pair_views(before).push((e.prerequisite@, e.dependent@)));
            }
            i = i + 1;
        }
        assert(self.edges@.take(i as int) =~= self.edges@);
        r
    }

    /// Cancels a task and, through dependents that can still be canceled,
    /// everything that waits for it; gives the ids of the tasks it canceled.
    /// A task that is no longer submitted, working or waiting for input is
    /// left as it is, and cancellation does not spread through it.
    pub fn propagate_cancellation(&mut self, task_id: &str) -> (r: Result<Vec<String>, CoordinationError>)
        requires
            old(self).wf(),
        ensures
            final(self).wf(),
            final(self).edge_list() == old(self).edge_list(),
            final(self).tasks().dom() == old(self).tasks().dom(),
            !old(self).tasks().contains_key(task_id@) ==> (r matches Err(CoordinationError::TaskNotFound { task_id: t })
                && t@ == task_id@ && final(self).tasks() == old(self).tasks()),
            old(self).tasks().contains_key(task_id@) ==> (r matches Ok(v) && strings_view(v@).no_duplicates()
                && forall|x: Seq<char>| #[trigger] strings_view(v@).contains(x) <==> old(self).canceled_by(task_id@, x)),
            forall|k: Seq<char>| #[trigger] old(self).tasks().contains_key(k) ==> if old(self).canceled_by(task_id@, k) {
                canceled_from(final(self).tasks()[k]@, old(self).tasks()[k]@)
            } else {
                final(self).tasks()[k] == old(self).tasks()[k]
            },
    {
        if !self.nodes.contains_key(task_id) {
            proof {
                assert forall|k: Seq<char>| #[trigger] self.tasks().contains_key(k) implies !self.canceled_by(task_id@, k) by {
                    if self.canceled_by(task_id@, k) {
                        let cl = cancel_links(self.tasks(), self.edge_list());
                        let p = choose|p: Seq<Seq<char>>| #[trigger] is_walk(cl, p) && p[0] == task_id@ && p.last() == k;
                        if p.len() > 1 {
                            assert(link_at(cl, p, 0));
                            lemma_cancel_links(self.tasks(), self.edge_list(), p[0], p[1]);
                            let i = choose|i: int| #![trigger self.edge_list()[i]] 0 <= i < self.edge_list().len()
                                && self.edge_list()[i].prerequisite@ == p[0] && self.edge_list()[i].dependent@ == p[1]
                                && cancellable(self.tasks()[p[0]].status.state) && cancellable(self.tasks()[p[1]].status.state);
                            assert(self.tasks().contains_key(self.edges@[i].prerequisite@));
                        }
                    }
                }
            }
            return Err(CoordinationError::TaskNotFound { task_id: owned(task_id) });
        }
        let root_ok = match self.nodes.get(task_id) {
            Some(t) => t.status.state == TaskState::Submitted || t.status.state == TaskState::Working
                || t.status.state == TaskState::InputRequired,
            None => false,
        };
        if !root_ok {
            let v: Vec<String> = Vec::new();
            assert(strings_view(v@) =~= Seq::<Seq<char>>::empty());
            return Ok(v);
        }
        let links = self.cancel_link_vec();
        let reached = reach_set(&links, task_id);
        let ghost before = *self;
        let ghost cs = strings_view(reached@);
        proof {
            assert forall|x: Seq<char>| #[trigger] cs.contains(x) implies before.tasks().contains_key(x) by {
                before.lemma_cancel_reach(task_id@, x);
            }
        }
        let mut i: usize = 0;
        while i < reached.len()
            invariant
                cs == strings_view(reached@),
                cs.no_duplicates(),
                forall|x: Seq<char>| #[trigger] cs.contains(x) ==> before.tasks().contains_key(x),
                forall|x: Seq<char>| #[trigger] cs.contains(x) <==> before.canceled_by(task_id@, x),
                before.wf(),
                self.nodes.wf(),
                self.edges == before.edges,
                i <= reached@.len(),
                forall|k: Seq<char>| #[trigger] self.tasks().contains_key(k) == before.tasks().contains_key(k),
                forall|k: Seq<char>| #[trigger] self.tasks().contains_key(k) ==> self.tasks()[k].id@ == k,
                forall|k: Seq<char>| #[trigger] before.tasks().contains_key(k) ==> if cs.take(i as int).contains(k) {
                    canceled_from(self.tasks()[k]@, before.tasks()[k]@)
                } else {
                    self.tasks()[k] == before.tasks()[k]
                },
            decreases reached@.len() - i,
        {
            let ghost k = cs[i as int];
            assert(cs.contains(k));
            assert(!cs.take(i as int).contains(k)) by {
                let t0 = cs.take(i as int);
                if t0.contains(k) {
                    let m = choose|m: int| 0 <= m < t0.len() && t0[m] == k;
                    assert(cs[m] == cs[i as int]);
                }
            }
            let key = &reached[i];
            let t = match self.nodes.get(key.as_str()) {
                Some(t) => t,
                None => {
                    proof {
                        assert(before.tasks().contains_key(k));
                    }
                    i = i + 1;
                    continue;
                },
            };
            let mut nt = t.clone();
            nt.status.state = TaskState::Canceled;
            nt.status.timestamp = Some(now_rfc3339());
            let ghost mid = *self;
            self.nodes.insert(key.clone(), nt);
            let ghost t0 = cs.take(i as int);
            let ghost t1 = cs.take(i + 1);
            proof {
                assert(t1 =~= t0.push(k));
                assert forall|x: Seq<char>| #[trigger] before.tasks().contains_key(x) implies if t1.contains(x) {
                    canceled_from(self.tasks()[x]@, before.tasks()[x]@)
                } else {
                    self.tasks()[x] == before.tasks()[x]
                } by {
                    if x != k {
                        assert(mid.tasks().contains_key(x));
                        if t1.contains(x) {
                            let m = choose|m: int| 0 <= m < t1.len() && t1[m] == x;
                            assert(m < t0.len());
                            assert(t0[m] == x);
                            assert(t0.contains(x));
                        } else {
                            if t0.contains(x) {
                                let m = choose|m: int| 0 <= m < t0.len() && t0[m] == x;
                                assert(t1[m] == x);
                            }
                        }
                    } else {
                        assert(t1[t0.len() as int] == k);
                        assert(t1.contains(k));
                    }
                }
                assert forall|x: Seq<char>| #[trigger] self.tasks().contains_key(x) implies self.tasks()[x].id@ == x by {
                    if x != k {
                        assert(mid.tasks().contains_key(x));
                    }
                }
            }
            i = i + 1;
        }
        proof {
            assert(cs.take(i as int) =~= cs);
            assert(self.tasks().dom() =~= before.tasks().dom());
            assert forall|j: int| 0 <= j < self.edges@.len() implies #[trigger] self.tasks().contains_key(self.edges@[j].dependent@)
                && self.tasks().contains_key(self.edges@[j].prerequisite@) by {
                assert(before.tasks().contains_key(before.edges@[j].dependent@));
            }
        }
        Ok(reached)
    }
}

impl TaskGraph {
    /// Whether every prerequisite of `k` is in `out`.
    fn prereqs_placed(&self, out: &Vec<String>, k: &str) -> (r: bool)
        ensures
            r == forall|p: Seq<char>| #[trigger] self.links().contains((k@, p)) ==> strings_view(out@).contains(p),
    {
        let mut i: usize = 0;
        while i < self.edges.len()
            invariant
                i <= self.edges@.len(),
                forall|m: int| 0 <= m < i && #[trigger] self.links()[m].0 == k@ ==> strings_view(out@).contains(self.links()[m].1),
            decreases self.edges@.len() - i,
        {
            assert(self.links()[i as int] == (self.edges@[i as int].dependent@, self.edges@[i as int].prerequisite@));
            if str_eq(self.edges[i].dependent.as_str(), k) && !contains_str(out, self.edges[i].prerequisite.as_str()) {
                assert(self.links().contains((k@, self.links()[i as int].1)));
                return false;
            }
            i = i + 1;
        }
        proof {
            assert forall|p: Seq<char>| #[trigger] self.links().contains((k@, p)) implies strings_view(out@).contains(p) by {
                let m = choose|m: int| 0 <= m < self.links().len() && self.links()[m] == (k@, p);
                assert(self.links()[m].0 == k@);
            }
        }
        true
    }

    /// The tasks in an order where every task comes after all its
    /// prerequisites. The graph holds no cycle, so every task finds a place.
    pub fn topological_sort(&self) -> (r: Result<Vec<String>, CoordinationError>)
        requires
            self.wf(),
        ensures
            r matches Ok(v) && self.topological(strings_view(v@)),
    {
        let entries = self.nodes.iter_pairs();
        proof {
            self.nodes.lemma_entries();
            lemma_links_in_graph(*self);
        }
        let ghost keys = self.nodes.keys();
        let mut out: Vec<String> = Vec::new();
        let mut progress = true;
        while progress
            invariant
                self.wf(),
                keys == self.nodes.keys(),
                entries@.len() == keys.len(),
                forall|i: int| 0 <= i < entries@.len() ==> (#[trigger] entries@[i]).0@ == keys[i],
                forall|i: int| #![trigger keys[i]] 0 <= i < keys.len() ==> self.tasks().contains_key(keys[i]),
                forall|k: Seq<char>| #[trigger] self.tasks().contains_key(k) <==> has_key(keys, k),
                strings_view(out@).no_duplicates(),
                forall|x: Seq<char>| #[trigger] strings_view(out@).contains(x) ==> self.tasks().contains_key(x),
                forall|i: int, p: Seq<char>| 0 <= i < strings_view(out@).len() && #[trigger] self.links().contains((strings_view(out@)[i], p))
                    ==> strings_view(out@).take(i).contains(p),
                !progress ==> forall|k: Seq<char>| #[trigger] self.tasks().contains_key(k) ==> strings_view(out@).contains(k)
                    || exists|p: Seq<char>| !strings_view(out@).contains(p) && self.links().contains((k, p)),
            decreases 2 * absent(keys, strings_view(out@), keys.len() as int) + (if progress { 1int } else { 0int }),
        {
            let ghost before = strings_view(out@);
            let mut added = false;
            let mut j: usize = 0;
            while j < entries.len()
                invariant
                    self.wf(),
                    keys == self.nodes.keys(),
                    entries@.len() == keys.len(),
                    forall|i: int| 0 <= i < entries@.len() ==> (#[trigger] entries@[i]).0@ == keys[i],
                    forall|i: int| #![trigger keys[i]] 0 <= i < keys.len() ==> self.tasks().contains_key(keys[i]),
                    j <= entries@.len(),
                    forall|x: Seq<char>| before.contains(x) ==> strings_view(out@).contains(x),
                    strings_view(out@).no_duplicates(),
                    forall|x: Seq<char>| #[trigger] strings_view(out@).contains(x) ==> self.tasks().contains_key(x),
                    forall|i: int, p: Seq<char>| 0 <= i < strings_view(out@).len() && #[trigger] self.links().contains((strings_view(out@)[i], p))
                        ==> strings_view(out@).take(i).contains(p),
                    !added ==> strings_view(out@) == before,
                    !added ==> forall|i: int| #![trigger keys[i]] 0 <= i < j ==> before.contains(keys[i])
                        || exists|p: Seq<char>| !before.contains(p) && self.links().contains((keys[i], p)),
                    added ==> exists|i: int| #![trigger keys[i]] 0 <= i < j && !before.contains(keys[i])
                        && strings_view(out@).contains(keys[i]),
                decreases entries@.len() - j,
            {
                let ghost cur = strings_view(out@);
                let ghost k = keys[j as int];
                let key = entries[j].0;
                assert(key@ == k);
                if !contains_str(&out, key.as_str()) {
                    if self.prereqs_placed(&out, key.as_str()) {
                        proof {
                            lemma_push_distinct(cur, k);
                        }
                        out.push(key.clone());
                        proof {
                            let nv = strings_view(out@);
                            assert(nv =~= cur.push(k));
                            assert forall|i: int, p: Seq<char>| 0 <= i < nv.len() && #[trigger] self.links().contains((nv[i], p))
                                implies nv.take(i).contains(p) by {
                                if i < cur.len() {
                                    assert(nv[i] == cur[i]);
                                    assert(nv.take(i) =~= cur.take(i));
                                } else {
                                    assert(nv[i] == k);
                                    assert(nv.take(i) =~= cur);
                                }
                            }
                            assert(nv.contains(k));
                            assert(self.tasks().contains_key(keys[j as int]));
                            assert forall|x: Seq<char>| #[trigger] nv.contains(x) implies self.tasks().contains_key(x) by {
                                if x != k {
                                    let m = choose|m: int| 0 <= m < nv.len() && nv[m] == x;
                                    assert(cur[m] == x);
                                    assert(cur.contains(x));
                                }
                            }
                            if added {
                                let i = choose|i: int| #![trigger keys[i]] 0 <= i < j && !before.contains(keys[i])
                                    && cur.contains(keys[i]);
                                assert(nv.contains(keys[i]));
                            }
                            assert(!before.contains(k));
                        }
                        added = true;
                    }
                }
                j = j + 1;
            }
            proof {
                let after = strings_view(out@);
                if added {
                    let i = choose|i: int| #![trigger keys[i]] 0 <= i < keys.len() && !before.contains(keys[i]) && after.contains(keys[i]);
                    lemma_absent_drop(keys, before, after, keys.len() as int, i);
                } else {
                    assert forall|k: Seq<char>| #[trigger] self.tasks().contains_key(k) implies after.contains(k)
                        || exists|p: Seq<char>| !after.contains(p) && self.links().contains((k, p)) by {
                        let i = choose|i: int| 0 <= i < keys.len() && #[trigger] keys[i] == k;
                    }
                }
            }
            progress = added;
        }
        proof {
            let s = strings_view(out@);
            let dom = self.tasks().dom();
            let rest = Set::new(|k: Seq<char>| self.tasks().contains_key(k) && !s.contains(k));
            lemma_dom_len(&self.nodes);
            assert(rest.subset_of(dom));
            vstd::set_lib::lemma_len_subset(rest, dom);
            assert forall|x: Seq<char>| #[trigger] rest.contains(x) implies exists|y: Seq<char>| rest.contains(y) && self.links().contains((x, y)) by {
                let p = choose|p: Seq<char>| !s.contains(p) && self.links().contains((x, p));
                let m = choose|m: int| 0 <= m < self.links().len() && self.links()[m] == (x, p);
                assert(self.tasks().contains_key(self.links()[m].1));
                assert(rest.contains(p));
            }
            lemma_graph_acyclic(*self);
            lemma_no_stuck_set(self.links(), rest);
            assert forall|x: Seq<char>| #[trigger] s.contains(x) <==> self.tasks().contains_key(x) by {
                if self.tasks().contains_key(x) && !s.contains(x) {
                    assert(rest.contains(x));
                }
            }
            assert forall|i: int, j: int| 0 <= i < s.len() && 0 <= j < s.len() && #[trigger] self.links().contains((s[j], s[i])) implies i < j by {
                assert(s.take(j).contains(s[i]));
                let m = choose|m: int| 0 <= m < s.take(j).len() && s.take(j)[m] == s[i];
                assert(s[m] == s[i]);
            }
        }
        Ok(out)
    }
}

impl Default for TaskGraph {
    fn default() -> (g: Self)
        ensures
            g.wf(),
            g.tasks() == Map::<Seq<char>, Task>::empty(),
            g.edge_list() == Seq::<DependencyEdge>::empty(),
    {
        TaskGraph::new()
    }
}

/// Join semantics: a task whose prerequisites are met has every one of its
/// prerequisites finished (completed, failed or canceled).
pub proof fn lemma_met_needs_finished(g: TaskGraph, d: Seq<char>, p: Seq<char>)
    requires
        g.wf(),
        g.prereqs_met(d),
        g.links().contains((d, p)),
    ensures
        prereq_finished(g.tasks()[p].status.state),
{
    let i = choose|i: int| 0 <= i < g.links().len() && g.links()[i] == (d, p);
    assert(g.edge_list()[i].dependent@ == d);
    assert(edge_met(g.tasks(), g.edge_list()[i]));
}

/// Cancellation spreads along every link: when it reaches a task, it also
/// reaches each of its dependents that can still be canceled.
pub proof fn lemma_cancel_spreads(g: TaskGraph, id: Seq<char>, p: Seq<char>, d: Seq<char>)
    requires
        g.wf(),
        g.tasks().contains_key(id),
        g.canceled_by(id, p),
        g.links().contains((d, p)),
        cancellable(g.tasks()[d].status.state),
    ensures
        g.canceled_by(id, d),
{
    let cl = cancel_links(g.tasks(), g.edge_list());
    g.lemma_cancel_reach(id, p);
    let i = choose|i: int| 0 <= i < g.links().len() && g.links()[i] == (d, p);
    assert(g.edge_list()[i].dependent@ == d && g.edge_list()[i].prerequisite@ == p);
    lemma_cancel_links(g.tasks(), g.edge_list(), p, d);
    let w = choose|w: Seq<Seq<char>>| #[trigger] is_walk(cl, w) && w[0] == id && w.last() == p;
    lemma_walk_push(cl, w, d);
    assert(w.push(d)[0] == id && w.push(d).last() == d);
}

/// The graph never holds a cycle: no task waits, directly or through other
/// tasks, for itself.
pub proof fn lemma_graph_acyclic(g: TaskGraph)
    requires
        g.wf(),
    ensures
        acyclic(g.links()),
        forall|x: Seq<char>, y: Seq<char>| #[trigger] reaches(g.links(), x, y) && #[trigger] g.links().contains((y, x)) ==> false,
{
    assert forall|x: Seq<char>, y: Seq<char>| #[trigger] reaches(g.links(), x, y) && #[trigger] g.links().contains((y, x)) implies false by {
        let p = choose|p: Seq<Seq<char>>| #[trigger] is_walk(g.links(), p) && p[0] == x && p.last() == y;
        lemma_walk_push(g.links(), p, x);
        assert(p.push(x).len() >= 2 && p.push(x)[0] == x && p.push(x).last() == x);
    }
}

/// The task order lists every task once, in increasing string order.
pub proof fn lemma_task_order(g: TaskGraph)
    requires
        g.wf(),
    ensures
        crate::strmap::sorted_keys(g.task_order()),
        g.task_order().no_duplicates(),
        forall|x: Seq<char>| #[trigger] g.task_order().contains(x) <==> g.tasks().contains_key(x),
{
    g.nodes.lemma_entries();
    let k = g.task_order();
    assert forall|i: int, j: int| 0 <= i < k.len() && 0 <= j < k.len() && i != j implies k[i] != k[j] by {
        if k[i] == k[j] {
            lemma_key_unique(k, i, j);
        }
    }
    assert forall|x: Seq<char>| #[trigger] k.contains(x) <==> g.tasks().contains_key(x) by {
        if k.contains(x) {
            let i = choose|i: int| 0 <= i < k.len() && k[i] == x;
            assert(has_key(k, x));
        }
        if g.tasks().contains_key(x) {
            let i = choose|i: int| 0 <= i < k.len() && #[trigger] k[i] == x;
            assert(k[i] == x);
        }
    }
}

/// Every link joins two tasks of the graph, and no link occurs twice.
pub proof fn lemma_links_in_graph(g: TaskGraph)
    requires
        g.wf(),
    ensures
        forall|i: int| #![trigger g.links()[i]] 0 <= i < g.links().len() ==> g.tasks().contains_key(g.links()[i].0)
            && g.tasks().contains_key(g.links()[i].1),
        forall|i: int, j: int| 0 <= i < j < g.links().len() ==> #[trigger] g.links()[i] != #[trigger] g.links()[j],
{
    assert forall|i: int| #![trigger g.links()[i]] 0 <= i < g.links().len() implies g.tasks().contains_key(g.links()[i].0)
        && g.tasks().contains_key(g.links()[i].1) by {
        g.lemma_link(i);
    }
}

} // verus!
