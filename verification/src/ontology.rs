//! The protocol state of an agent: tasks, their messages, agents and push
//! notification configurations, with a context index and size bounds.
//!
//! Every collection is walked in key order, so the state is deterministic.
use vstd::prelude::*;
use crate::domain::{A2AError, AgentCard, Message, Task, TaskPushNotificationConfig, TaskState, TaskStatusView, TaskView};
use crate::strmap::{StrMap, sorted_keys};
use crate::text::{contains_str, dec_of, owned, push_decimal, push_str, str_eq, strings_view};

verus! {

/// Default largest number of tasks.
pub const DEFAULT_MAX_TASKS: usize = 10_000;

/// Default largest number of messages kept per task.
pub const DEFAULT_MAX_MESSAGES_PER_TASK: usize = 1_000;

/// Default largest number of agents.
pub const DEFAULT_MAX_AGENTS: usize = 1_000;

/// Limits on the size of the state.
#[derive(Debug, Clone, Copy, PartialEq, Eq, Structural)]
pub struct StateBounds {
    /// Largest number of tasks.
    pub max_tasks: usize,
    /// Largest number of messages kept per task; older ones are evicted.
    pub max_messages_per_task: usize,
    /// Largest number of agents.
    pub max_agents: usize,
}

impl Default for StateBounds {
    fn default() -> (r: Self)
        ensures
            r.max_tasks == DEFAULT_MAX_TASKS,
            r.max_messages_per_task == DEFAULT_MAX_MESSAGES_PER_TASK,
            r.max_agents == DEFAULT_MAX_AGENTS,
    {
        StateBounds {
            max_tasks: DEFAULT_MAX_TASKS,
            max_messages_per_task: DEFAULT_MAX_MESSAGES_PER_TASK,
            max_agents: DEFAULT_MAX_AGENTS,
        }
    }
}

/// Counts of what the state holds.
#[derive(Debug, Clone, Copy, PartialEq, Eq, Structural)]
pub struct StateStats {
    pub task_count: usize,
    pub agent_count: usize,
    pub notification_config_count: usize,
    pub context_count: usize,
    pub total_messages: usize,
}

/// The total length of a sequence of message lists.
pub open spec fn total_len(s: Seq<Vec<Message>>) -> nat
    decreases s.len(),
{
    if s.len() == 0 { 0 } else { total_len(s.drop_last()) + s.last()@.len() }
}

/// `ids` without `k`, order kept.
pub open spec fn without(ids: Seq<Seq<char>>, k: Seq<char>) -> Seq<Seq<char>>
    decreases ids.len(),
{
    if ids.len() == 0 {
        ids
    } else if ids.last() == k {
        without(ids.drop_last(), k)
    } else {
        without(ids.drop_last(), k).push(ids.last())
    }
}

/// The tasks of `m` named by `ids`, in that order, skipping missing ones.
pub open spec fn present_tasks(ids: Seq<Seq<char>>, m: Map<Seq<char>, Task>) -> Seq<Task>
    decreases ids.len(),
{
    if ids.len() == 0 {
        Seq::empty()
    } else if m.contains_key(ids.last()) {
        present_tasks(ids.drop_last(), m).push(m[ids.last()])
    } else {
        present_tasks(ids.drop_last(), m)
    }
}

/// The message list after adding `m` to `before` with room for `max`.
pub open spec fn after_add(before: Seq<Message>, m: Message, max: nat) -> Seq<Message> {
    if before.len() >= max { before.drop_first().push(m) } else { before.push(m) }
}

/// Removing an id keeps the others, each once.
pub proof fn lemma_without_distinct(s: Seq<Seq<char>>, k: Seq<char>)
    requires
        s.no_duplicates(),
    ensures
        without(s, k).no_duplicates(),
        forall|x: Seq<char>| #[trigger] without(s, k).contains(x) ==> s.contains(x) && x != k,
    decreases s.len(),
{
    if s.len() > 0 {
        let t = s.drop_last();
        assert(t.no_duplicates());
        lemma_without_distinct(t, k);
        assert forall|x: Seq<char>| #[trigger] t.contains(x) implies s.contains(x) by {
            let i = choose|i: int| 0 <= i < t.len() && t[i] == x;
            assert(s[i] == x);
        }
        if s.last() != k {
            let w = without(t, k);
            assert(!t.contains(s.last())) by {
                if t.contains(s.last()) {
                    let i = choose|i: int| 0 <= i < t.len() && t[i] == s.last();
                    assert(s[i] == s[s.len() - 1]);
                }
            }
            assert(!w.contains(s.last()));
            assert forall|a: int, b: int| 0 <= a < b < w.push(s.last()).len() implies w.push(s.last())[a] != w.push(s.last())[b] by {
                if b == w.len() {
                    assert(w.contains(w[a]));
                }
            }
            assert forall|x: Seq<char>| #[trigger] w.push(s.last()).contains(x) implies s.contains(x) && x != k by {
                let i = choose|i: int| 0 <= i < w.push(s.last()).len() && w.push(s.last())[i] == x;
                if i < w.len() {
                    assert(w.contains(x));
                } else {
                    assert(s[s.len() - 1] == x);
                }
            }
        }
    }
}

/// Listing an id once keeps a list of distinct ids distinct.
pub proof fn lemma_listed_once_distinct(ids: Seq<Seq<char>>, id: Seq<char>)
    requires
        ids.no_duplicates(),
    ensures
        listed_once(ids, id).no_duplicates(),
        listed_once(ids, id).contains(id),
{
    if !ids.contains(id) {
        let r = ids.push(id);
        assert(r[ids.len() as int] == id);
        assert forall|a: int, b: int| 0 <= a < b < r.len() implies r[a] != r[b] by {
            if b == ids.len() {
                assert(ids.contains(ids[a]));
            }
        }
    }
}

/// `ids` with `id` appended, unless it is already there.
pub open spec fn listed_once(ids: Seq<Seq<char>>, id: Seq<char>) -> Seq<Seq<char>> {
    if ids.contains(id) { ids } else { ids.push(id) }
}

/// The task `t` with its state set to `s`.
pub open spec fn with_state(t: TaskView, s: TaskState) -> TaskView {
    TaskView { status: TaskStatusView { state: s, ..t.status }, ..t }
}

/// The text of the error for a full task table.
pub open spec fn task_limit_message(id: Seq<char>, max: nat) -> Seq<char> {
    "Task limit exceeded: cannot add task "@ + id + ", max is "@ + dec_of(max)
}

/// The text of the error for a full agent table.
pub open spec fn agent_limit_message(name: Seq<char>, max: nat) -> Seq<char> {
    "Agent limit exceeded: cannot add agent "@ + name + ", max is "@ + dec_of(max)
}

/// The complete protocol state of an agent.
#[derive(Debug)]
pub struct OntologyState {
    tasks: StrMap<Task>,
    task_messages: StrMap<Vec<Message>>,
    agents: StrMap<AgentCard>,
    notification_configs: StrMap<TaskPushNotificationConfig>,
    context_to_tasks: StrMap<Vec<String>>,
    bounds: StateBounds,
}

impl OntologyState {
    /// Tasks by id.
    pub closed spec fn tasks_view(&self) -> Map<Seq<char>, Task> {
        self.tasks.map()
    }

    /// Task ids, in increasing order.
    pub closed spec fn task_ids(&self) -> Seq<Seq<char>> {
        self.tasks.keys()
    }

    /// Tasks, in the order of their ids.
    pub closed spec fn task_list(&self) -> Seq<Task> {
        self.tasks.vals()
    }

    /// Message histories by task id.
    pub closed spec fn messages_view(&self) -> Map<Seq<char>, Seq<Message>> {
        Map::new(|k: Seq<char>| self.task_messages.map().contains_key(k), |k: Seq<char>| self.task_messages.map()[k]@)
    }

    /// The message lists, in task id order.
    pub closed spec fn message_lists(&self) -> Seq<Vec<Message>> {
        self.task_messages.vals()
    }

    /// Agents by name.
    pub closed spec fn agents_view(&self) -> Map<Seq<char>, AgentCard> {
        self.agents.map()
    }

    /// Agent names, in increasing order.
    pub closed spec fn agent_names(&self) -> Seq<Seq<char>> {
        self.agents.keys()
    }

    /// Agents, in the order of their names.
    pub closed spec fn agent_list(&self) -> Seq<AgentCard> {
        self.agents.vals()
    }

    /// Notification configurations by task id.
    pub closed spec fn configs_view(&self) -> Map<Seq<char>, TaskPushNotificationConfig> {
        self.notification_configs.map()
    }

    /// Task ids with a configuration, in increasing order.
    pub closed spec fn config_ids(&self) -> Seq<Seq<char>> {
        self.notification_configs.keys()
    }

    /// Configurations, in task id order.
    pub closed spec fn config_list(&self) -> Seq<TaskPushNotificationConfig> {
        self.notification_configs.vals()
    }

    /// The task ids of each context, in the order they were added.
    pub closed spec fn contexts_view(&self) -> Map<Seq<char>, Seq<Seq<char>>> {
        Map::new(
            |k: Seq<char>| self.context_to_tasks.map().contains_key(k),
            |k: Seq<char>| strings_view(self.context_to_tasks.map()[k]@),
        )
    }

    /// Number of contexts indexed.
    pub closed spec fn context_count_view(&self) -> nat {
        self.context_to_tasks.keys().len()
    }

    /// The task ids recorded for a context (none when it is not indexed).
    pub open spec fn context_ids(&self, c: Seq<char>) -> Seq<Seq<char>> {
        if self.contexts_view().contains_key(c) { self.contexts_view()[c] } else { Seq::empty() }
    }

    /// The message history of a task (empty when it has none).
    pub open spec fn history(&self, k: Seq<char>) -> Seq<Message> {
        if self.messages_view().contains_key(k) { self.messages_view()[k] } else { Seq::empty() }
    }

    /// The bounds.
    pub closed spec fn bounds_view(&self) -> StateBounds {
        self.bounds
    }

    /// The maps are well formed, each task and agent sits under its own
    /// id or name, and the bounds hold.
    pub closed spec fn wf(&self) -> bool {
        &&& self.tasks.wf()
        &&& self.task_messages.wf()
        &&& self.agents.wf()
        &&& self.notification_configs.wf()
        &&& self.context_to_tasks.wf()
        &&& forall|i: int| 0 <= i < self.tasks.keys().len() ==> (#[trigger] self.tasks.vals()[i]).id@ == self.tasks.keys()[i]
        &&& forall|i: int| 0 <= i < self.agents.keys().len() ==> (#[trigger] self.agents.vals()[i]).name@ == self.agents.keys()[i]
        &&& self.tasks.keys().len() <= self.bounds.max_tasks
        &&& self.agents.keys().len() <= self.bounds.max_agents
        &&& forall|k: Seq<char>| #[trigger] self.messages_view().contains_key(k) ==> self.messages_view()[k].len() <= self.bounds.max_messages_per_task
        &&& forall|c: Seq<char>| #[trigger] self.context_to_tasks.map().contains_key(c)
            ==> strings_view(self.context_to_tasks.map()[c]@).no_duplicates()
    }

    /// What the public views say of the state's structure.
    pub proof fn lemma_wf(&self)
        requires
            self.wf(),
        ensures
            sorted_keys(self.task_ids()),
            sorted_keys(self.agent_names()),
            sorted_keys(self.config_ids()),
            self.task_ids().len() == self.task_list().len(),
            self.agent_names().len() == self.agent_list().len(),
            forall|i: int| 0 <= i < self.task_ids().len() ==> (#[trigger] self.task_list()[i]).id@ == self.task_ids()[i],
            forall|i: int| 0 <= i < self.agent_names().len() ==> (#[trigger] self.agent_list()[i]).name@ == self.agent_names()[i],
            self.task_ids().len() <= self.bounds_view().max_tasks,
            self.agent_names().len() <= self.bounds_view().max_agents,
            forall|k: Seq<char>| #[trigger] self.messages_view().contains_key(k) ==> self.messages_view()[k].len() <= self.bounds_view().max_messages_per_task,
            self.task_ids().no_duplicates(),
            self.task_ids().to_set() == self.tasks_view().dom(),
            self.tasks_view().dom().len() == self.task_ids().len(),
            self.agent_names().no_duplicates(),
            self.agent_names().to_set() == self.agents_view().dom(),
            self.agents_view().dom().len() == self.agent_names().len(),
            self.config_ids().no_duplicates(),
            self.config_ids().to_set() == self.configs_view().dom(),
            self.configs_view().dom().len() == self.config_ids().len(),
            self.contexts_view().dom().finite(),
            self.contexts_view().dom().len() == self.context_count_view(),
            forall|c: Seq<char>| #[trigger] self.contexts_view().contains_key(c) ==> self.contexts_view()[c].no_duplicates(),
    {
        assert forall|c: Seq<char>| #[trigger] self.contexts_view().contains_key(c) implies
            self.contexts_view()[c].no_duplicates() by {
            assert(self.context_to_tasks.map().contains_key(c));
        }
        self.tasks.lemma_dom();
        self.agents.lemma_dom();
        self.notification_configs.lemma_dom();
        self.context_to_tasks.lemma_dom();
        assert(self.contexts_view().dom() =~= self.context_to_tasks.map().dom());
    }

    /// An empty state with the default bounds.
    pub fn new() -> (r: Self)
        ensures
            r.wf(),
            r.bounds_view() == (StateBounds {
                max_tasks: DEFAULT_MAX_TASKS,
                max_messages_per_task: DEFAULT_MAX_MESSAGES_PER_TASK,
                max_agents: DEFAULT_MAX_AGENTS,
            }),
            r.tasks_view() == Map::<Seq<char>, Task>::empty(),
            r.task_ids().len() == 0,
            r.messages_view() == Map::<Seq<char>, Seq<Message>>::empty(),
            r.agents_view() == Map::<Seq<char>, AgentCard>::empty(),
            r.agent_names().len() == 0,
            r.configs_view() == Map::<Seq<char>, TaskPushNotificationConfig>::empty(),
            r.config_ids().len() == 0,
            r.contexts_view() == Map::<Seq<char>, Seq<Seq<char>>>::empty(),
    {
        Self::with_bounds(StateBounds::default())
    }

    /// An empty state with the given bounds.
    pub fn with_bounds(bounds: StateBounds) -> (r: Self)
        ensures
            r.wf(),
            r.bounds_view() == bounds,
            r.tasks_view() == Map::<Seq<char>, Task>::empty(),
            r.task_ids().len() == 0,
            r.messages_view() == Map::<Seq<char>, Seq<Message>>::empty(),
            r.agents_view() == Map::<Seq<char>, AgentCard>::empty(),
            r.agent_names().len() == 0,
            r.configs_view() == Map::<Seq<char>, TaskPushNotificationConfig>::empty(),
            r.config_ids().len() == 0,
            r.contexts_view() == Map::<Seq<char>, Seq<Seq<char>>>::empty(),
    {
        let r = OntologyState {
            tasks: StrMap::new(),
            task_messages: StrMap::new(),
            agents: StrMap::new(),
            notification_configs: StrMap::new(),
            context_to_tasks: StrMap::new(),
            bounds,
        };
        assert(r.messages_view() =~= Map::<Seq<char>, Seq<Message>>::empty());
        assert(r.contexts_view() =~= Map::<Seq<char>, Seq<Seq<char>>>::empty());
        r
    }

    /// `true` iff there is no task, agent or notification configuration.
    pub fn is_empty(&self) -> (r: bool)
        ensures
            r == (self.task_ids().len() == 0 && self.agent_names().len() == 0 && self.config_ids().len() == 0),
    {
        self.tasks.is_empty() && self.agents.is_empty() && self.notification_configs.is_empty()
    }

    /// The bounds.
    pub fn bounds(&self) -> (r: &StateBounds)
        ensures
            *r == self.bounds_view(),
    {
        &self.bounds
    }

    /// Adds a task, or replaces the task with the same id.
    ///
    /// A new task is refused when the state already holds `max_tasks`
    /// tasks. The task's id is appended to its context's list unless it is
    /// already listed there.
    pub fn put_task(&mut self, task: Task) -> (r: Result<(), A2AError>)
        requires
            old(self).wf(),
        ensures
            final(self).wf(),
            final(self).bounds_view() == old(self).bounds_view(),
            ({
                let id = task.id@;
                let full = !old(self).tasks_view().contains_key(id)
                    && old(self).task_ids().len() >= old(self).bounds_view().max_tasks;
                &&& (r is Err) == full
                &&& full ==> (r matches Err(A2AError::Internal(msg))
                    && msg@ == task_limit_message(id, old(self).bounds_view().max_tasks as nat))
                &&& full ==> final(self).tasks_view() == old(self).tasks_view()
                    && final(self).contexts_view() == old(self).contexts_view()
                &&& !full ==> final(self).tasks_view() == old(self).tasks_view().insert(id, task)
                    && final(self).contexts_view() == old(self).contexts_view().insert(
                        task.context_id@,
                        listed_once(old(self).context_ids(task.context_id@), id),
                    )
            }),
            final(self).messages_view() == old(self).messages_view(),
            final(self).agents_view() == old(self).agents_view(),
            final(self).agent_names() == old(self).agent_names(),
            final(self).configs_view() == old(self).configs_view(),
            final(self).config_ids() == old(self).config_ids(),
    {
        proof {
            self.tasks.lemma_entries();
        }
        let present = self.tasks.contains_key(task.id.as_str());
        if !present && self.tasks.len() >= self.bounds.max_tasks {
            let mut msg = owned("Task limit exceeded: cannot add task ");
            push_str(&mut msg, task.id.as_str());
            push_str(&mut msg, ", max is ");
            push_decimal(self.bounds.max_tasks as u64, &mut msg);
            return Err(A2AError::Internal(msg));
        }
        let ghost old_ctx = self.contexts_view();
        let ghost ids = self.context_ids(task.context_id@);
        let mut list = match self.context_to_tasks.remove(task.context_id.as_str()) {
            Some(v) => v,
            None => Vec::new(),
        };
        assert(strings_view(list@) == ids);
        let ghost before = list@;
        if !contains_str(&list, task.id.as_str()) {
            list.push(task.id.clone());
            assert(strings_view(list@) =~= strings_view(before).push(task.id@));
        }
        self.context_to_tasks.insert(task.context_id.clone(), list);
        let ghost ok = self.tasks.keys();
        let key = task.id.clone();
        self.tasks.insert(key, task);
        proof {
            assert(self.messages_view() =~= old(self).messages_view());
            assert(self.contexts_view() =~= old_ctx.insert(task.context_id@, listed_once(ids, task.id@)));
            assert(ids.no_duplicates()) by {
                if old_ctx.contains_key(task.context_id@) {
                    assert(old(self).contexts_view().contains_key(task.context_id@));
                }
            }
            lemma_listed_once_distinct(ids, task.id@);
            assert forall|c: Seq<char>| #[trigger] self.context_to_tasks.map().contains_key(c) implies
                strings_view(self.context_to_tasks.map()[c]@).no_duplicates() by {
                assert(self.contexts_view().contains_key(c));
                if c != task.context_id@ {
                    assert(old(self).contexts_view().contains_key(c));
                    assert(old(self).context_to_tasks.map().contains_key(c));
                }
            }
            self.tasks.lemma_entries();
            let nk = self.tasks.keys();
            assert forall|i: int| 0 <= i < nk.len() implies (#[trigger] self.tasks.vals()[i]).id@ == nk[i] by {
                assert(self.tasks.map()[nk[i]] == self.tasks.vals()[i]);
                if nk[i] != task.id@ {
                    old(self).tasks.lemma_entries();
                    let j = choose|j: int| 0 <= j < ok.len() && #[trigger] ok[j] == nk[i];
                    assert(old(self).tasks.map()[ok[j]] == old(self).tasks.vals()[j]);
                }
            }
        }
        Ok(())
    }

    /// Sets the state of the task with this id, if there is one; nothing
    /// else changes.
    pub(crate) fn set_task_state(&mut self, task_id: &str, state: TaskState) -> (r: bool)
        requires
            old(self).wf(),
        ensures
            final(self).wf(),
            r == old(self).tasks_view().contains_key(task_id@),
            !r ==> final(self).tasks_view() == old(self).tasks_view(),
            r ==> exists|t: Task| #[trigger] final(self).tasks_view()[task_id@] == t
                && t@ == with_state(old(self).tasks_view()[task_id@]@, state)
                && final(self).tasks_view() == old(self).tasks_view().insert(task_id@, t),
            final(self).task_ids() == old(self).task_ids(),
            final(self).bounds_view() == old(self).bounds_view(),
            final(self).messages_view() == old(self).messages_view(),
            final(self).agents_view() == old(self).agents_view(),
            final(self).agent_names() == old(self).agent_names(),
            final(self).configs_view() == old(self).configs_view(),
            final(self).config_ids() == old(self).config_ids(),
            final(self).contexts_view() == old(self).contexts_view(),
    {
        proof {
            self.tasks.lemma_entries();
        }
        let mut nt = match self.tasks.get(task_id) {
            Some(t) => t.clone(),
            None => {
                return false;
            },
        };
        let ghost before_nt = nt@;
        nt.status.state = state;
        assert(nt@ == with_state(old(self).tasks_view()[task_id@]@, state)) by {
            assert(before_nt == old(self).tasks_view()[task_id@]@);
            assert(nt@ =~~= with_state(before_nt, state));
        }
        assert(old(self).tasks_view()[task_id@].id@ == task_id@) by {
            old(self).lemma_wf();
            let j = choose|j: int| 0 <= j < old(self).task_ids().len() && #[trigger] old(self).task_ids()[j] == task_id@;
            assert(old(self).tasks.map()[old(self).tasks.keys()[j]] == old(self).tasks.vals()[j]);
        }
        let ghost ok = self.tasks.keys();
        self.tasks.insert(owned(task_id), nt);
        proof {
            self.tasks.lemma_entries();
            let nk = self.tasks.keys();
            assert forall|i: int| 0 <= i < nk.len() implies (#[trigger] self.tasks.vals()[i]).id@ == nk[i] by {
                assert(self.tasks.map()[nk[i]] == self.tasks.vals()[i]);
                if nk[i] != task_id@ {
                    old(self).tasks.lemma_entries();
                    let j = choose|j: int| 0 <= j < ok.len() && #[trigger] ok[j] == nk[i];
                    assert(old(self).tasks.map()[ok[j]] == old(self).tasks.vals()[j]);
                }
            }
            assert(self.tasks.keys() == ok);
            assert(self.tasks_view()[task_id@] == nt);
            assert(self.messages_view() =~= old(self).messages_view());
        }
        true
    }

    /// The task with this id.
    pub fn get_task(&self, task_id: &str) -> (r: Option<&Task>)
        requires
            self.wf(),
        ensures
            r == (if self.tasks_view().contains_key(task_id@) { Some(&self.tasks_view()[task_id@]) } else { None }),
    {
        self.tasks.get(task_id)
    }

    /// The tasks recorded for a context, in the order they were added,
    /// skipping ids whose task is gone.
    pub fn get_tasks_by_context(&self, context_id: &str) -> (r: Vec<&Task>)
        requires
            self.wf(),
        ensures
            r@.len() == present_tasks(self.context_ids(context_id@), self.tasks_view()).len(),
            forall|i: int| 0 <= i < r@.len() ==> *r@[i] == present_tasks(self.context_ids(context_id@), self.tasks_view())[i],
    {
        let mut r: Vec<&Task> = Vec::new();
        match self.context_to_tasks.get(context_id) {
            None => {
                proof {
                    assert(!self.contexts_view().contains_key(context_id@));
                }
            },
            Some(ids) => {
                let ghost s = strings_view(ids@);
                assert(s == self.context_ids(context_id@));
                let mut i: usize = 0;
                while i < ids.len()
                    invariant
                        self.wf(),
                        s == strings_view(ids@),
                        i <= ids@.len(),
                        r@.len() == present_tasks(s.take(i as int), self.tasks_view()).len(),
                        forall|j: int| 0 <= j < r@.len() ==> *r@[j] == present_tasks(s.take(i as int), self.tasks_view())[j],
                    decreases ids@.len() - i,
                {
                    assert(s.take(i + 1).drop_last() =~= s.take(i as int));
                    assert(s.take(i + 1).last() == ids@[i as int]@);
                    match self.tasks.get(ids[i].as_str()) {
                        Some(t) => {
                            r.push(t);
                        },
                        None => {},
                    }
                    i = i + 1;
                }
                assert(s.take(i as int) =~= s);
            },
        }
        r
    }

    /// Every task, in the order of their ids.
    pub fn get_all_tasks(&self) -> (r: Vec<&Task>)
        requires
            self.wf(),
        ensures
            r@.len() == self.task_ids().len(),
            forall|i: int| 0 <= i < r@.len() ==> *r@[i] == self.task_list()[i] && (*r@[i]).id@ == self.task_ids()[i],
    {
        self.tasks.values()
    }

    /// The number of tasks.
    pub fn task_count(&self) -> (r: usize)
        ensures
            r == self.task_ids().len(),
    {
        self.tasks.len()
    }

    /// Removes a task with its messages, its notification configuration and
    /// its place in the context index (a context left empty is dropped).
    pub fn remove_task(&mut self, task_id: &str) -> (r: Option<Task>)
        requires
            old(self).wf(),
        ensures
            final(self).wf(),
            final(self).bounds_view() == old(self).bounds_view(),
            r == (if old(self).tasks_view().contains_key(task_id@) { Some(old(self).tasks_view()[task_id@]) } else { None }),
            final(self).tasks_view() == old(self).tasks_view().remove(task_id@),
            r is None ==> final(self).messages_view() == old(self).messages_view()
                && final(self).configs_view() == old(self).configs_view()
                && final(self).contexts_view() == old(self).contexts_view(),
            r matches Some(t) ==> (final(self).messages_view() == old(self).messages_view().remove(task_id@)
                && final(self).configs_view() == old(self).configs_view().remove(task_id@)
                && final(self).contexts_view() == (if old(self).contexts_view().contains_key(t.context_id@) {
                    let rest = without(old(self).contexts_view()[t.context_id@], task_id@);
                    if rest.len() == 0 {
                        old(self).contexts_view().remove(t.context_id@)
                    } else {
                        old(self).contexts_view().insert(t.context_id@, rest)
                    }
                } else {
                    old(self).contexts_view()
                })),
            final(self).agents_view() == old(self).agents_view(),
            final(self).agent_names() == old(self).agent_names(),
    {
        let ghost ok = self.tasks.keys();
        let ghost old_msgs = self.messages_view();
        let ghost old_ctx = self.contexts_view();
        let task = match self.tasks.remove(task_id) {
            None => {
                return None;
            },
            Some(t) => t,
        };
        self.task_messages.remove(task_id);
        proof {
            assert(self.messages_view() =~= old_msgs.remove(task_id@));
        }
        match self.context_to_tasks.remove(task.context_id.as_str()) {
            None => {
                proof {
                    assert(self.contexts_view() =~= old_ctx);
                    assert forall|c: Seq<char>| #[trigger] self.context_to_tasks.map().contains_key(c) implies
                        strings_view(self.context_to_tasks.map()[c]@).no_duplicates() by {
                        assert(old(self).context_to_tasks.map().contains_key(c));
                    }
                }
            },
            Some(ids) => {
                let ghost s = strings_view(ids@);
                let mut kept: Vec<String> = Vec::new();
                let mut i: usize = 0;
                while i < ids.len()
                    invariant
                        s == strings_view(ids@),
                        i <= ids@.len(),
                        strings_view(kept@) == without(s.take(i as int), task_id@),
                    decreases ids@.len() - i,
                {
                    assert(s.take(i + 1).drop_last() =~= s.take(i as int));
                    assert(s.take(i + 1).last() == ids@[i as int]@);
                    if !str_eq(ids[i].as_str(), task_id) {
                        let ghost before = kept@;
                        kept.push(ids[i].clone());
                        assert(strings_view(kept@) =~= strings_view(before).push(ids@[i as int]@));
                    }
                    i = i + 1;
                }
                assert(s.take(i as int) =~= s);
                proof {
                    assert(old(self).contexts_view().contains_key(task.context_id@));
                    lemma_without_distinct(s, task_id@);
                }
                if kept.len() > 0 {
                    self.context_to_tasks.insert(task.context_id.clone(), kept);
                    proof {
                        assert(self.contexts_view() =~= old_ctx.insert(task.context_id@, without(s, task_id@)));
                        assert forall|c: Seq<char>| #[trigger] self.context_to_tasks.map().contains_key(c) implies
                            strings_view(self.context_to_tasks.map()[c]@).no_duplicates() by {
                            assert(self.contexts_view().contains_key(c));
                            if c != task.context_id@ {
                                assert(old(self).context_to_tasks.map().contains_key(c));
                            }
                        }
                    }
                } else {
                    proof {
                        assert(self.contexts_view() =~= old_ctx.remove(task.context_id@));
                        assert forall|c: Seq<char>| #[trigger] self.context_to_tasks.map().contains_key(c) implies
                            strings_view(self.context_to_tasks.map()[c]@).no_duplicates() by {
                            assert(self.contexts_view().contains_key(c));
                            assert(old(self).context_to_tasks.map().contains_key(c));
                        }
                    }
                }
            },
        }
        self.notification_configs.remove(task_id);
        proof {
            self.tasks.lemma_entries();
            old(self).tasks.lemma_entries();
            let nk = self.tasks.keys();
            assert forall|i: int| 0 <= i < nk.len() implies (#[trigger] self.tasks.vals()[i]).id@ == nk[i] by {
                assert(self.tasks.map()[nk[i]] == self.tasks.vals()[i]);
                let j = choose|j: int| 0 <= j < ok.len() && #[trigger] ok[j] == nk[i];
                assert(old(self).tasks.map()[ok[j]] == old(self).tasks.vals()[j]);
            }
        }
        Some(task)
    }
    /// Appends a message to a task's history; when the history is full the
    /// oldest message is dropped first.
    pub fn add_message(&mut self, task_id: &str, message: Message) -> (r: Result<(), A2AError>)
        requires
            old(self).wf(),
            old(self).bounds_view().max_messages_per_task > 0,
        ensures
            final(self).wf(),
            final(self).bounds_view() == old(self).bounds_view(),
            (r is Err) == !old(self).tasks_view().contains_key(task_id@),
            r matches Err(e) ==> (e matches A2AError::TaskNotFound(id) && id@ == task_id@),
            r is Err ==> final(self).messages_view() == old(self).messages_view(),
            r is Ok ==> final(self).messages_view() == old(self).messages_view().insert(
                task_id@,
                after_add(old(self).history(task_id@), message, old(self).bounds_view().max_messages_per_task as nat),
            ),
            final(self).tasks_view() == old(self).tasks_view(),
            final(self).task_ids() == old(self).task_ids(),
            final(self).task_list() == old(self).task_list(),
            final(self).agents_view() == old(self).agents_view(),
            final(self).agent_names() == old(self).agent_names(),
            final(self).configs_view() == old(self).configs_view(),
            final(self).contexts_view() == old(self).contexts_view(),
    {
        if !self.tasks.contains_key(task_id) {
            return Err(A2AError::TaskNotFound(owned(task_id)));
        }
        let ghost old_msgs = self.messages_view();
        let ghost hist = self.history(task_id@);
        let mut list = match self.task_messages.remove(task_id) {
            Some(v) => v,
            None => Vec::new(),
        };
        assert(list@ == hist);
        assert(list@.len() <= self.bounds.max_messages_per_task) by {
            if old_msgs.contains_key(task_id@) {
                assert(old(self).messages_view().contains_key(task_id@));
            }
        }
        if list.len() >= self.bounds.max_messages_per_task {
            list.remove(0);
        }
        list.push(message);
        proof {
            assert(list@ =~= after_add(hist, message, self.bounds.max_messages_per_task as nat));
        }
        self.task_messages.insert(owned(task_id), list);
        proof {
            assert(self.messages_view() =~= old_msgs.insert(task_id@, after_add(hist, message, self.bounds.max_messages_per_task as nat)));
        }
        Ok(())
    }

    /// The message history of a task.
    pub fn get_messages(&self, task_id: &str) -> (r: Option<&Vec<Message>>)
        requires
            self.wf(),
        ensures
            r is Some == self.messages_view().contains_key(task_id@),
            r matches Some(v) ==> v@ == self.messages_view()[task_id@],
    {
        self.task_messages.get(task_id)
    }

    /// The number of messages kept for a task.
    pub fn message_count(&self, task_id: &str) -> (r: usize)
        requires
            self.wf(),
        ensures
            r == self.history(task_id@).len(),
    {
        match self.task_messages.get(task_id) {
            Some(v) => v.len(),
            None => 0,
        }
    }

    /// Adds an agent, or replaces the agent with the same name.
    ///
    /// A new agent is refused when the state already holds `max_agents` agents.
    pub fn put_agent(&mut self, agent: AgentCard) -> (r: Result<(), A2AError>)
        requires
            old(self).wf(),
        ensures
            final(self).wf(),
            final(self).bounds_view() == old(self).bounds_view(),
            ({
                let name = agent.name@;
                let full = !old(self).agents_view().contains_key(name)
                    && old(self).agent_names().len() >= old(self).bounds_view().max_agents;
                &&& (r is Err) == full
                &&& full ==> (r matches Err(A2AError::Internal(msg))
                    && msg@ == agent_limit_message(name, old(self).bounds_view().max_agents as nat))
                &&& full ==> final(self).agents_view() == old(self).agents_view()
                &&& !full ==> final(self).agents_view() == old(self).agents_view().insert(name, agent)
            }),
            final(self).tasks_view() == old(self).tasks_view(),
            final(self).task_ids() == old(self).task_ids(),
            final(self).messages_view() == old(self).messages_view(),
            final(self).configs_view() == old(self).configs_view(),
            final(self).contexts_view() == old(self).contexts_view(),
    {
        proof {
            self.agents.lemma_entries();
        }
        if !self.agents.contains_key(agent.name.as_str()) && self.agents.len() >= self.bounds.max_agents {
            let mut msg = owned("Agent limit exceeded: cannot add agent ");
            push_str(&mut msg, agent.name.as_str());
            push_str(&mut msg, ", max is ");
            push_decimal(self.bounds.max_agents as u64, &mut msg);
            return Err(A2AError::Internal(msg));
        }
        let ghost ok = self.agents.keys();
        let key = agent.name.clone();
        self.agents.insert(key, agent);
        proof {
            assert(self.messages_view() =~= old(self).messages_view());
            self.agents.lemma_entries();
            let nk = self.agents.keys();
            assert forall|i: int| 0 <= i < nk.len() implies (#[trigger] self.agents.vals()[i]).name@ == nk[i] by {
                assert(self.agents.map()[nk[i]] == self.agents.vals()[i]);
                if nk[i] != agent.name@ {
                    old(self).agents.lemma_entries();
                    let j = choose|j: int| 0 <= j < ok.len() && #[trigger] ok[j] == nk[i];
                    assert(old(self).agents.map()[ok[j]] == old(self).agents.vals()[j]);
                }
            }
        }
        Ok(())
    }

    /// The agent with this name.
    pub fn get_agent(&self, agent_name: &str) -> (r: Option<&AgentCard>)
        requires
            self.wf(),
        ensures
            r == (if self.agents_view().contains_key(agent_name@) { Some(&self.agents_view()[agent_name@]) } else { None }),
    {
        self.agents.get(agent_name)
    }

    /// Every agent, in the order of their names.
    pub fn get_all_agents(&self) -> (r: Vec<&AgentCard>)
        requires
            self.wf(),
        ensures
            r@.len() == self.agent_names().len(),
            forall|i: int| 0 <= i < r@.len() ==> *r@[i] == self.agent_list()[i] && (*r@[i]).name@ == self.agent_names()[i],
    {
        self.agents.values()
    }

    /// The number of agents.
    pub fn agent_count(&self) -> (r: usize)
        ensures
            r == self.agent_names().len(),
    {
        self.agents.len()
    }

    /// Removes the agent with this name.
    pub fn remove_agent(&mut self, agent_name: &str) -> (r: Option<AgentCard>)
        requires
            old(self).wf(),
        ensures
            final(self).wf(),
            final(self).bounds_view() == old(self).bounds_view(),
            r == (if old(self).agents_view().contains_key(agent_name@) { Some(old(self).agents_view()[agent_name@]) } else { None }),
            final(self).agents_view() == old(self).agents_view().remove(agent_name@),
            final(self).tasks_view() == old(self).tasks_view(),
            final(self).task_ids() == old(self).task_ids(),
            final(self).messages_view() == old(self).messages_view(),
            final(self).configs_view() == old(self).configs_view(),
            final(self).contexts_view() == old(self).contexts_view(),
    {
        let ghost ok = self.agents.keys();
        let r = self.agents.remove(agent_name);
        proof {
            assert(self.messages_view() =~= old(self).messages_view());
            self.agents.lemma_entries();
            old(self).agents.lemma_entries();
            let nk = self.agents.keys();
            assert forall|i: int| 0 <= i < nk.len() implies (#[trigger] self.agents.vals()[i]).name@ == nk[i] by {
                assert(self.agents.map()[nk[i]] == self.agents.vals()[i]);
                let j = choose|j: int| 0 <= j < ok.len() && #[trigger] ok[j] == nk[i];
                assert(old(self).agents.map()[ok[j]] == old(self).agents.vals()[j]);
            }
        }
        r
    }

    /// Sets the push notification configuration of an existing task.
    pub fn put_notification_config(&mut self, task_id: &str, config: TaskPushNotificationConfig) -> (r: Result<(), A2AError>)
        requires
            old(self).wf(),
        ensures
            final(self).wf(),
            final(self).bounds_view() == old(self).bounds_view(),
            (r is Err) == !old(self).tasks_view().contains_key(task_id@),
            r matches Err(e) ==> (e matches A2AError::TaskNotFound(id) && id@ == task_id@),
            r is Err ==> final(self).configs_view() == old(self).configs_view(),
            r is Ok ==> final(self).configs_view() == old(self).configs_view().insert(task_id@, config),
            final(self).tasks_view() == old(self).tasks_view(),
            final(self).task_ids() == old(self).task_ids(),
            final(self).messages_view() == old(self).messages_view(),
            final(self).agents_view() == old(self).agents_view(),
            final(self).contexts_view() == old(self).contexts_view(),
    {
        if !self.tasks.contains_key(task_id) {
            return Err(A2AError::TaskNotFound(owned(task_id)));
        }
        self.notification_configs.insert(owned(task_id), config);
        proof {
            assert(self.messages_view() =~= old(self).messages_view());
        }
        Ok(())
    }

    /// The push notification configuration of a task.
    pub fn get_notification_config(&self, task_id: &str) -> (r: Option<&TaskPushNotificationConfig>)
        requires
            self.wf(),
        ensures
            r == (if self.configs_view().contains_key(task_id@) { Some(&self.configs_view()[task_id@]) } else { None }),
    {
        self.notification_configs.get(task_id)
    }

    /// Removes the push notification configuration of a task.
    pub fn remove_notification_config(&mut self, task_id: &str) -> (r: Option<TaskPushNotificationConfig>)
        requires
            old(self).wf(),
        ensures
            final(self).wf(),
            final(self).bounds_view() == old(self).bounds_view(),
            r == (if old(self).configs_view().contains_key(task_id@) { Some(old(self).configs_view()[task_id@]) } else { None }),
            final(self).configs_view() == old(self).configs_view().remove(task_id@),
            final(self).tasks_view() == old(self).tasks_view(),
            final(self).task_ids() == old(self).task_ids(),
            final(self).messages_view() == old(self).messages_view(),
            final(self).agents_view() == old(self).agents_view(),
            final(self).contexts_view() == old(self).contexts_view(),
    {
        let r = self.notification_configs.remove(task_id);
        proof {
            assert(self.messages_view() =~= old(self).messages_view());
        }
        r
    }

    /// Every notification configuration with its task id, in task id order.
    pub fn get_all_notification_configs(&self) -> (r: Vec<(&String, &TaskPushNotificationConfig)>)
        requires
            self.wf(),
        ensures
            r@.len() == self.config_ids().len(),
            forall|i: int| 0 <= i < r@.len() ==> (#[trigger] r@[i]).0@ == self.config_ids()[i] && *r@[i].1 == self.config_list()[i],
    {
        self.notification_configs.iter_pairs()
    }

    /// The number of notification configurations.
    pub fn notification_config_count(&self) -> (r: usize)
        ensures
            r == self.config_ids().len(),
    {
        self.notification_configs.len()
    }

    /// Empties the state; the bounds stay.
    pub fn clear(&mut self)
        requires
            old(self).wf(),
        ensures
            final(self).wf(),
            final(self).bounds_view() == old(self).bounds_view(),
            final(self).tasks_view() == Map::<Seq<char>, Task>::empty(),
            final(self).task_ids().len() == 0,
            final(self).messages_view() == Map::<Seq<char>, Seq<Message>>::empty(),
            final(self).agents_view() == Map::<Seq<char>, AgentCard>::empty(),
            final(self).agent_names().len() == 0,
            final(self).configs_view() == Map::<Seq<char>, TaskPushNotificationConfig>::empty(),
            final(self).config_ids().len() == 0,
            final(self).contexts_view() == Map::<Seq<char>, Seq<Seq<char>>>::empty(),
    {
        self.tasks.clear();
        self.task_messages.clear();
        self.agents.clear();
        self.notification_configs.clear();
        self.context_to_tasks.clear();
        assert(self.messages_view() =~= Map::<Seq<char>, Seq<Message>>::empty());
        assert(self.contexts_view() =~= Map::<Seq<char>, Seq<Seq<char>>>::empty());
    }

    /// Counts of what the state holds. The message total saturates at
    /// `usize::MAX`.
    pub fn stats(&self) -> (r: StateStats)
        requires
            self.wf(),
        ensures
            r.task_count == self.task_ids().len(),
            r.agent_count == self.agent_names().len(),
            r.notification_config_count == self.config_ids().len(),
            r.context_count == self.context_count_view(),
            r.total_messages == capped(total_len(self.message_lists())),
    {
        let lists = self.task_messages.values();
        let ghost s = self.message_lists();
        let mut total: usize = 0;
        let mut i: usize = 0;
        while i < lists.len()
            invariant
                lists@.len() == s.len(),
                forall|j: int| 0 <= j < lists@.len() ==> *lists@[j] == s[j],
                i <= lists@.len(),
                total == capped(total_len(s.take(i as int))),
            decreases lists@.len() - i,
        {
            assert(s.take(i + 1).drop_last() =~= s.take(i as int));
            assert(s.take(i + 1).last() == s[i as int]);
            total = total.saturating_add(lists[i].len());
            i = i + 1;
        }
        assert(s.take(i as int) =~= s);
        StateStats {
            task_count: self.tasks.len(),
            agent_count: self.agents.len(),
            notification_config_count: self.notification_configs.len(),
            context_count: self.context_to_tasks.len(),
            total_messages: total,
        }
    }
}

/// `n`, or `usize::MAX` when `n` does not fit.
pub open spec fn capped(n: nat) -> nat {
    if n <= usize::MAX { n } else { usize::MAX as nat }
}


impl Default for OntologyState {
    fn default() -> (r: Self)
        ensures
            r.wf(),
            r.tasks_view() == Map::<Seq<char>, Task>::empty(),
            r.agents_view() == Map::<Seq<char>, AgentCard>::empty(),
            r.configs_view() == Map::<Seq<char>, TaskPushNotificationConfig>::empty(),
    {
        Self::new()
    }
}

/// Persistence of an ontology state, for storage backends to implement.
pub trait OntologyStorage {
    /// Persists the state.
    fn save(&self, state: &OntologyState) -> Result<(), A2AError>;

    /// Loads the persisted state.
    fn load(&self) -> Result<OntologyState, A2AError>;

    /// `true` iff a persisted state exists.
    fn has_stored_state(&self) -> bool;

    /// Deletes the persisted state.
    fn delete(&self) -> Result<(), A2AError>;
}

} // verus!
