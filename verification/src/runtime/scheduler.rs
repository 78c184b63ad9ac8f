//! A deterministic scheduler.
//!
//! Pending tasks are ordered by the key (epoch, priority class, station id,
//! task id); each station runs at most its work-in-progress limit of tasks
//! at once; and after a task of one station starts, the next pick prefers a
//! task of another station. The same sequence of calls always gives the
//! same sequence of results.
use vstd::prelude::*;
use crate::json::JsonValue;
use crate::strmap::{StrMap, has_key, lemma_dom_len, lemma_key_unique};
use crate::text::{
    clone_strings, lemma_lex_irreflexive, lemma_lex_transitive, lemma_str_lt_total, owned, push_decimal, push_str,
    str_eq, str_less, str_lt, strings_view,
};

verus! {

/// Why a scheduling operation failed.
#[derive(Debug, Clone)]
pub enum SchedulerError {
    WipLimitExceeded { station_id: String, current: usize, limit: usize },
    TaskNotFound { task_id: String },
    StationNotFound { station_id: String },
    InvalidEpoch { epoch: u64 },
    DuplicateTask { task_id: String },
}

/// The text of a scheduling error.
pub open spec fn scheduler_error_text(e: SchedulerError) -> Seq<char> {
    match e {
        SchedulerError::WipLimitExceeded { station_id, current, limit } => "WIP limit exceeded for station "@
            + station_id@ + ": current="@ + crate::text::dec_of(current as nat) + ", limit="@
            + crate::text::dec_of(limit as nat),
        SchedulerError::TaskNotFound { task_id } => "Task not found: "@ + task_id@,
        SchedulerError::StationNotFound { station_id } => "Station not found: "@ + station_id@,
        SchedulerError::InvalidEpoch { epoch } => "Invalid epoch: "@ + crate::text::dec_of(epoch as nat),
        SchedulerError::DuplicateTask { task_id } => "Duplicate task: "@ + task_id@,
    }
}

impl SchedulerError {
    /// The text of the error.
    pub fn message(&self) -> (r: String)
        ensures
            r@ == scheduler_error_text(*self),
    {
        let mut m = String::new();
        match self {
            SchedulerError::WipLimitExceeded { station_id, current, limit } => {
                push_str(&mut m, "WIP limit exceeded for station ");
                push_str(&mut m, station_id.as_str());
                push_str(&mut m, ": current=");
                push_decimal(*current as u64, &mut m);
                push_str(&mut m, ", limit=");
                push_decimal(*limit as u64, &mut m);
            },
            SchedulerError::TaskNotFound { task_id } => {
                push_str(&mut m, "Task not found: ");
                push_str(&mut m, task_id.as_str());
            },
            SchedulerError::StationNotFound { station_id } => {
                push_str(&mut m, "Station not found: ");
                push_str(&mut m, station_id.as_str());
            },
            SchedulerError::InvalidEpoch { epoch } => {
                push_str(&mut m, "Invalid epoch: ");
                push_decimal(*epoch, &mut m);
            },
            SchedulerError::DuplicateTask { task_id } => {
                push_str(&mut m, "Duplicate task: ");
                push_str(&mut m, task_id.as_str());
            },
        }
        assert(m@ =~= scheduler_error_text(*self));
        m
    }
}

/// Priority classes, from the most urgent to the least.
#[derive(Debug, Clone, Copy, PartialEq, Eq, Structural, PartialOrd, Ord, Hash)]
pub enum PriorityClass {
    Critical,
    High,
    Normal,
    Low,
    Idle,
}

/// The place of a priority class in the order of urgency (0 is the most
/// urgent).
pub open spec fn rank(p: PriorityClass) -> int {
    match p {
        PriorityClass::Critical => 0,
        PriorityClass::High => 1,
        PriorityClass::Normal => 2,
        PriorityClass::Low => 3,
        PriorityClass::Idle => 4,
    }
}

fn rank_of(p: PriorityClass) -> (r: u8)
    ensures
        r as int == rank(p),
{
    match p {
        PriorityClass::Critical => 0,
        PriorityClass::High => 1,
        PriorityClass::Normal => 2,
        PriorityClass::Low => 3,
        PriorityClass::Idle => 4,
    }
}

impl Default for PriorityClass {
    fn default() -> (r: Self)
        ensures
            r == PriorityClass::Normal,
    {
        PriorityClass::Normal
    }
}

/// A task waiting to be scheduled on a station.
#[derive(Debug)]
pub struct ScheduledTask {
    pub task_id: String,
    pub station_id: String,
    /// The logical clock value the task belongs to.
    pub epoch: u64,
    pub priority: PriorityClass,
    pub context_id: Option<String>,
    /// Application data, a JSON object when present.
    pub metadata: Option<JsonValue>,
}

impl ScheduledTask {
    /// A task with no context and no metadata.
    pub fn new(task_id: String, station_id: String, epoch: u64, priority: PriorityClass) -> (r: Self)
        ensures
            r.task_id == task_id,
            r.station_id == station_id,
            r.epoch == epoch,
            r.priority == priority,
            r.context_id is None,
            r.metadata is None,
    {
        ScheduledTask { task_id, station_id, epoch, priority, context_id: None, metadata: None }
    }

    /// A task with a context and no metadata.
    pub fn with_context(task_id: String, station_id: String, epoch: u64, priority: PriorityClass, context_id: String) -> (r: Self)
        ensures
            r.task_id == task_id,
            r.station_id == station_id,
            r.epoch == epoch,
            r.priority == priority,
            r.context_id == Some(context_id),
            r.metadata is None,
    {
        ScheduledTask { task_id, station_id, epoch, priority, context_id: Some(context_id), metadata: None }
    }
}

/// `a` comes before `b` in scheduling order: by epoch, then priority class,
/// then station id, then task id.
pub open spec fn key_lt(a: ScheduledTask, b: ScheduledTask) -> bool {
    ||| a.epoch < b.epoch
    ||| a.epoch == b.epoch && rank(a.priority) < rank(b.priority)
    ||| a.epoch == b.epoch && rank(a.priority) == rank(b.priority) && str_lt(a.station_id@, b.station_id@)
    ||| a.epoch == b.epoch && rank(a.priority) == rank(b.priority) && a.station_id@ == b.station_id@
        && str_lt(a.task_id@, b.task_id@)
}

/// No task comes before itself.
pub proof fn lemma_key_irreflexive(a: ScheduledTask)
    ensures
        !key_lt(a, a),
{
    lemma_lex_irreflexive(a.station_id@, 0);
    lemma_lex_irreflexive(a.task_id@, 0);
}

/// The scheduling order is transitive.
pub proof fn lemma_key_transitive(a: ScheduledTask, b: ScheduledTask, c: ScheduledTask)
    requires
        key_lt(a, b),
        key_lt(b, c),
    ensures
        key_lt(a, c),
{
    if a.epoch == b.epoch && b.epoch == c.epoch && rank(a.priority) == rank(b.priority) && rank(b.priority) == rank(c.priority) {
        lemma_lex_irreflexive(a.station_id@, 0);
        lemma_lex_irreflexive(b.station_id@, 0);
        lemma_lex_irreflexive(c.station_id@, 0);
        if a.station_id@ == b.station_id@ && b.station_id@ == c.station_id@ {
            lemma_lex_transitive(a.task_id@, b.task_id@, c.task_id@, 0);
        } else if str_lt(a.station_id@, b.station_id@) && str_lt(b.station_id@, c.station_id@) {
            lemma_lex_transitive(a.station_id@, b.station_id@, c.station_id@, 0);
        }
    }
}

/// Tasks with different ids are ordered one way or the other.
pub proof fn lemma_key_total(a: ScheduledTask, b: ScheduledTask)
    requires
        a.task_id@ != b.task_id@,
    ensures
        key_lt(a, b) || key_lt(b, a),
{
    lemma_str_lt_total(a.task_id@, b.task_id@);
    if a.station_id@ != b.station_id@ {
        lemma_str_lt_total(a.station_id@, b.station_id@);
    }
}

/// Whether `a` comes before `b` in scheduling order.
pub fn key_less(a: &ScheduledTask, b: &ScheduledTask) -> (r: bool)
    ensures
        r == key_lt(*a, *b),
{
    if a.epoch != b.epoch {
        return a.epoch < b.epoch;
    }
    let ra = rank_of(a.priority);
    let rb = rank_of(b.priority);
    if ra != rb {
        return ra < rb;
    }
    if !str_eq(a.station_id.as_str(), b.station_id.as_str()) {
        return str_less(a.station_id.as_str(), b.station_id.as_str());
    }
    proof {
        lemma_lex_irreflexive(a.station_id@, 0);
    }
    str_less(a.task_id.as_str(), b.task_id.as_str())
}

/// The ids in `s` never decrease.
pub open spec fn sorted_ids(s: Seq<Seq<char>>) -> bool {
    forall|i: int, j: int| 0 <= i < j < s.len() ==> !str_lt(#[trigger] s[j], #[trigger] s[i])
}

/// `t` is `s` with `x` put in at some position.
pub open spec fn inserted(s: Seq<Seq<char>>, x: Seq<char>, t: Seq<Seq<char>>) -> bool {
    exists|p: int| 0 <= p <= s.len() && t == s.insert(p, x)
}

/// `t` is `s` without its first occurrence of `x`.
pub open spec fn removed_first(s: Seq<Seq<char>>, x: Seq<char>, t: Seq<Seq<char>>) -> bool {
    exists|p: int| #![trigger s[p]] 0 <= p < s.len() && s[p] == x && (forall|j: int| 0 <= j < p ==> s[j] != x) && t == s.remove(p)
}

/// The state of a station: its limit and the ids it is running, in order.
#[derive(Debug)]
struct StationState {
    station_id: String,
    wip_limit: usize,
    active_tasks: Vec<String>,
}

impl StationState {
    spec fn ok(&self, id: Seq<char>) -> bool {
        &&& self.station_id@ == id
        &&& sorted_ids(strings_view(self.active_tasks@))
        &&& self.active_tasks@.len() <= self.wip_limit
    }

    fn new(station_id: String, wip_limit: usize) -> (r: Self)
        ensures
            r.station_id == station_id,
            r.wip_limit == wip_limit,
            r.active_tasks@.len() == 0,
    {
        StationState { station_id, wip_limit, active_tasks: Vec::new() }
    }

    fn can_accept_task(&self) -> (r: bool)
        ensures
            r == (self.active_tasks@.len() < self.wip_limit),
    {
        self.active_tasks.len() < self.wip_limit
    }

    /// Puts `task_id` among the running ids, keeping them in order.
    fn add_sorted(&mut self, task_id: String)
        requires
            sorted_ids(strings_view(old(self).active_tasks@)),
        ensures
            final(self).station_id == old(self).station_id,
            final(self).wip_limit == old(self).wip_limit,
            sorted_ids(strings_view(final(self).active_tasks@)),
            inserted(strings_view(old(self).active_tasks@), task_id@, strings_view(final(self).active_tasks@)),
    {
        let ghost s = strings_view(self.active_tasks@);
        let ghost x = task_id@;
        let mut p: usize = 0;
        while p < self.active_tasks.len() && str_less(self.active_tasks[p].as_str(), task_id.as_str())
            invariant
                s == strings_view(self.active_tasks@),
                x == task_id@,
                p <= self.active_tasks@.len(),
                forall|j: int| 0 <= j < p ==> str_lt(#[trigger] s[j], x),
            decreases self.active_tasks@.len() - p,
        {
            assert(s[p as int] == self.active_tasks@[p as int]@);
            p = p + 1;
        }
        self.active_tasks.insert(p, task_id);
        proof {
            let t = strings_view(self.active_tasks@);
            assert(t =~= s.insert(p as int, x));
            assert forall|i: int, j: int| 0 <= i < j < t.len() implies !str_lt(#[trigger] t[j], #[trigger] t[i]) by {
                if j < p {
                    assert(t[i] == s[i] && t[j] == s[j]);
                } else if j == p {
                    assert(t[j] == x && t[i] == s[i]);
                    assert(str_lt(s[i], x));
                    if str_lt(x, s[i]) {
                        lemma_lex_transitive(x, s[i], x, 0);
                        lemma_lex_irreflexive(x, 0);
                    }
                } else if i == p {
                    assert(t[i] == x && t[j] == s[j - 1]);
                    // x <= s[p] <= s[j - 1]
                    assert(!str_lt(s[p as int], x));
                    if str_lt(s[j - 1], x) {
                        if j - 1 == p {
                        } else {
                            assert(!str_lt(s[j - 1], s[p as int]));
                            if s[j - 1] != s[p as int] {
                                lemma_str_lt_total(s[j - 1], s[p as int]);
                                lemma_lex_transitive(s[p as int], s[j - 1], x, 0);
                            }
                        }
                    }
                } else if i < p {
                    assert(t[i] == s[i] && t[j] == s[j - 1]);
                    assert(str_lt(s[i], x));
                    if p < s.len() {
                        assert(!str_lt(s[p as int], x));
                    }
                    if str_lt(s[j - 1], s[i]) {
                        lemma_lex_transitive(s[j - 1], s[i], x, 0);
                        // s[j - 1] < x but j - 1 >= p, and x <= s[p] <= s[j - 1]
                        if j - 1 > p {
                            assert(!str_lt(s[j - 1], s[p as int]));
                            if s[j - 1] != s[p as int] {
                                lemma_str_lt_total(s[j - 1], s[p as int]);
                                lemma_lex_transitive(s[p as int], s[j - 1], x, 0);
                            }
                        }
                    }
                } else {
                    assert(t[i] == s[i - 1] && t[j] == s[j - 1]);
                }
            }
        }
    }

    /// Takes the first occurrence of `task_id` out of the running ids.
    fn remove_first(&mut self, task_id: &str) -> (r: bool)
        requires
            sorted_ids(strings_view(old(self).active_tasks@)),
        ensures
            final(self).station_id == old(self).station_id,
            final(self).wip_limit == old(self).wip_limit,
            sorted_ids(strings_view(final(self).active_tasks@)),
            r == strings_view(old(self).active_tasks@).contains(task_id@),
            r ==> removed_first(strings_view(old(self).active_tasks@), task_id@, strings_view(final(self).active_tasks@)),
            !r ==> final(self).active_tasks@ == old(self).active_tasks@,
    {
        let ghost s = strings_view(self.active_tasks@);
        let mut p: usize = 0;
        while p < self.active_tasks.len() && !str_eq(self.active_tasks[p].as_str(), task_id)
            invariant
                s == strings_view(self.active_tasks@),
                p <= self.active_tasks@.len(),
                forall|j: int| 0 <= j < p ==> #[trigger] s[j] != task_id@,
            decreases self.active_tasks@.len() - p,
        {
            p = p + 1;
        }
        if p == self.active_tasks.len() {
            proof {
                if s.contains(task_id@) {
                    let k = choose|k: int| 0 <= k < s.len() && s[k] == task_id@;
                    assert(s[k] != task_id@);
                }
            }
            return false;
        }
        self.active_tasks.remove(p);
        proof {
            let t = strings_view(self.active_tasks@);
            assert(t =~= s.remove(p as int));
            assert(s[p as int] == task_id@);
            assert forall|i: int, j: int| 0 <= i < j < t.len() implies !str_lt(#[trigger] t[j], #[trigger] t[i]) by {
                let i2 = if i < p { i } else { i + 1 };
                let j2 = if j < p { j } else { j + 1 };
                assert(t[i] == s[i2] && t[j] == s[j2]);
            }
        }
        true
    }
}

/// A deterministic scheduler of tasks onto stations.
#[derive(Debug)]
pub struct Scheduler {
    pending: StrMap<ScheduledTask>,
    stations: StrMap<StationState>,
    default_wip_limit: usize,
    current_epoch: u64,
    last_scheduled_station: Option<String>,
}

impl Scheduler {
    /// The pending tasks, by task id.
    pub closed spec fn pending_map(&self) -> Map<Seq<char>, ScheduledTask> {
        self.pending.map()
    }

    /// The work-in-progress limit of each station.
    pub closed spec fn limits(&self) -> Map<Seq<char>, nat> {
        self.stations.map().map_values(|s: StationState| s.wip_limit as nat)
    }

    /// The ids each station is running, in order.
    pub closed spec fn running(&self) -> Map<Seq<char>, Seq<Seq<char>>> {
        self.stations.map().map_values(|s: StationState| strings_view(s.active_tasks@))
    }

    /// The station of the task scheduled last, if any.
    pub closed spec fn last_station(&self) -> Option<Seq<char>> {
        match self.last_scheduled_station {
            Some(s) => Some(s@),
            None => None,
        }
    }

    /// The current epoch.
    pub closed spec fn epoch(&self) -> u64 {
        self.current_epoch
    }

    /// The limit a station gets when it is first used by a task.
    pub closed spec fn default_limit(&self) -> nat {
        self.default_wip_limit as nat
    }

    /// Pending tasks are filed under their ids and their stations exist;
    /// each station runs its ids in order and no more than its limit.
    pub closed spec fn wf(&self) -> bool {
        &&& self.pending.wf()
        &&& self.stations.wf()
        &&& forall|k: Seq<char>| #[trigger] self.pending.map().contains_key(k) ==> self.pending.map()[k].task_id@ == k
            && self.stations.map().contains_key(self.pending.map()[k].station_id@)
        &&& forall|k: Seq<char>| #[trigger] self.stations.map().contains_key(k) ==> self.stations.map()[k].ok(k)
    }

    /// The station of `t` exists and runs fewer tasks than its limit.
    pub open spec fn eligible(&self, t: ScheduledTask) -> bool {
        self.running().contains_key(t.station_id@) && self.running()[t.station_id@].len() < self.limits()[t.station_id@]
    }

    /// `t` can be picked in the given pass: in the first pass its station
    /// must differ from the one scheduled last.
    pub open spec fn qualifies(&self, t: ScheduledTask, first_pass: bool) -> bool {
        &&& self.eligible(t)
        &&& first_pass ==> (self.last_station() matches Some(l) && t.station_id@ != l)
    }

    /// `k` is the first pending task, in scheduling order, that qualifies in
    /// the pass.
    pub open spec fn least(&self, k: Seq<char>, first_pass: bool) -> bool {
        &&& self.pending_map().contains_key(k)
        &&& self.qualifies(self.pending_map()[k], first_pass)
        &&& forall|k2: Seq<char>| #[trigger] self.pending_map().contains_key(k2)
            && self.qualifies(self.pending_map()[k2], first_pass) ==> !key_lt(self.pending_map()[k2], self.pending_map()[k])
    }

    /// The task the scheduler picks next: the first that qualifies in the
    /// first pass, else the first that qualifies at all.
    pub open spec fn pick(&self) -> Option<Seq<char>> {
        if exists|k: Seq<char>| self.least(k, true) {
            Some(choose|k: Seq<char>| self.least(k, true))
        } else if exists|k: Seq<char>| self.least(k, false) {
            Some(choose|k: Seq<char>| self.least(k, false))
        } else {
            None
        }
    }

    proof fn lemma_least_unique(&self, a: Seq<char>, b: Seq<char>, fp: bool)
        requires
            self.wf(),
            self.least(a, fp),
            self.least(b, fp),
        ensures
            a == b,
    {
        if a != b {
            lemma_key_total(self.pending_map()[a], self.pending_map()[b]);
        }
    }

    proof fn lemma_views(&self)
        requires
            self.wf(),
        ensures
            forall|k: Seq<char>| #[trigger] self.running().contains_key(k) <==> self.stations.map().contains_key(k),
            forall|k: Seq<char>| #[trigger] self.limits().contains_key(k) <==> self.stations.map().contains_key(k),
            forall|k: Seq<char>| self.stations.map().contains_key(k) ==> #[trigger] self.running()[k]
                == strings_view(self.stations.map()[k].active_tasks@) && self.limits()[k] == self.stations.map()[k].wip_limit
                && sorted_ids(self.running()[k]) && self.running()[k].len() <= self.limits()[k],
    {
        assert forall|k: Seq<char>| self.stations.map().contains_key(k) implies #[trigger] self.running()[k]
            == strings_view(self.stations.map()[k].active_tasks@) && self.limits()[k] == self.stations.map()[k].wip_limit
            && sorted_ids(self.running()[k]) && self.running()[k].len() <= self.limits()[k] by {
            assert(self.stations.map()[k].ok(k));
        }
    }

    /// A scheduler with no stations and nothing pending, whose stations get
    /// `default_wip_limit` when first used.
    pub fn new(default_wip_limit: usize) -> (r: Self)
        ensures
            r.wf(),
            r.pending_map() == Map::<Seq<char>, ScheduledTask>::empty(),
            r.running() == Map::<Seq<char>, Seq<Seq<char>>>::empty(),
            r.limits() == Map::<Seq<char>, nat>::empty(),
            r.last_station() is None,
            r.epoch() == 0,
            r.default_limit() == default_wip_limit,
    {
        let r = Scheduler {
            pending: StrMap::new(),
            stations: StrMap::new(),
            default_wip_limit,
            current_epoch: 0,
            last_scheduled_station: None,
        };
        assert(r.running() =~= Map::<Seq<char>, Seq<Seq<char>>>::empty());
        assert(r.limits() =~= Map::<Seq<char>, nat>::empty());
        r
    }

    /// Registers a station with its limit; a station registered before
    /// starts over with nothing running.
    pub fn register_station(&mut self, station_id: String, wip_limit: usize)
        requires
            old(self).wf(),
        ensures
            final(self).wf(),
            final(self).pending_map() == old(self).pending_map(),
            final(self).limits() == old(self).limits().insert(station_id@, wip_limit as nat),
            final(self).running() == old(self).running().insert(station_id@, Seq::empty()),
            final(self).last_station() == old(self).last_station(),
            final(self).epoch() == old(self).epoch(),
            final(self).default_limit() == old(self).default_limit(),
    {
        let ghost before = *self;
        let key = station_id.clone();
        let st = StationState::new(station_id, wip_limit);
        proof {
            assert(strings_view(st.active_tasks@) =~= Seq::<Seq<char>>::empty());
        }
        self.stations.insert(key, st);
        proof {
            assert(self.limits() =~= before.limits().insert(key@, wip_limit as nat));
            assert(self.running() =~= before.running().insert(key@, Seq::empty()));
            assert forall|k: Seq<char>| #[trigger] self.pending.map().contains_key(k) implies self.pending.map()[k].task_id@ == k
                && self.stations.map().contains_key(self.pending.map()[k].station_id@) by {
                assert(before.pending.map().contains_key(k));
            }
            assert forall|k: Seq<char>| #[trigger] self.stations.map().contains_key(k) implies self.stations.map()[k].ok(k) by {
                if k != key@ {
                    assert(before.stations.map().contains_key(k));
                }
            }
        }
    }

    /// Queues a task; a task with the same id must not be pending. Its
    /// station is created, with the default limit, if it does not exist.
    pub fn submit(&mut self, task: ScheduledTask) -> (r: Result<(), SchedulerError>)
        requires
            old(self).wf(),
        ensures
            final(self).wf(),
            final(self).last_station() == old(self).last_station(),
            final(self).epoch() == old(self).epoch(),
            final(self).default_limit() == old(self).default_limit(),
            old(self).pending_map().contains_key(task.task_id@) ==> (r matches Err(SchedulerError::DuplicateTask { task_id })
                && task_id@ == task.task_id@ && final(self).pending_map() == old(self).pending_map()
                && final(self).running() == old(self).running() && final(self).limits() == old(self).limits()),
            !old(self).pending_map().contains_key(task.task_id@) ==> {
                &&& r is Ok
                &&& final(self).pending_map() == old(self).pending_map().insert(task.task_id@, task)
                &&& old(self).running().contains_key(task.station_id@) ==> final(self).running() == old(self).running()
                    && final(self).limits() == old(self).limits()
                &&& !old(self).running().contains_key(task.station_id@) ==> final(self).running()
                    == old(self).running().insert(task.station_id@, Seq::empty())
                    && final(self).limits() == old(self).limits().insert(task.station_id@, old(self).default_limit())
            },
    {
        let ghost before = *self;
        proof {
            before.lemma_views();
        }
        if self.pending.contains_key(task.task_id.as_str()) {
            return Err(SchedulerError::DuplicateTask { task_id: task.task_id.clone() });
        }
        if !self.stations.contains_key(task.station_id.as_str()) {
            let key = task.station_id.clone();
            let st = StationState::new(task.station_id.clone(), self.default_wip_limit);
            proof {
                assert(strings_view(st.active_tasks@) =~= Seq::<Seq<char>>::empty());
            }
            self.stations.insert(key, st);
            proof {
                assert(self.limits() =~= before.limits().insert(task.station_id@, before.default_limit()));
                assert(self.running() =~= before.running().insert(task.station_id@, Seq::empty()));
            }
        }
        let ghost mid = *self;
        let ghost t = task;
        let key = task.task_id.clone();
        self.pending.insert(key, task);
        proof {
            assert forall|k: Seq<char>| #[trigger] self.pending.map().contains_key(k) implies self.pending.map()[k].task_id@ == k
                && self.stations.map().contains_key(self.pending.map()[k].station_id@) by {
                if k != t.task_id@ {
                    assert(before.pending.map().contains_key(k));
                    assert(before.stations.map().contains_key(before.pending.map()[k].station_id@));
                }
            }
            assert forall|k: Seq<char>| #[trigger] self.stations.map().contains_key(k) implies self.stations.map()[k].ok(k) by {
                if before.stations.map().contains_key(k) {
                    assert(before.stations.map()[k].ok(k));
                }
            }
        }
        Ok(())
    }

    /// Whether the station exists and runs fewer tasks than its limit.
    fn accepts(&self, station_id: &str) -> (r: bool)
        requires
            self.wf(),
        ensures
            r == (self.running().contains_key(station_id@)
                && self.running()[station_id@].len() < self.limits()[station_id@]),
    {
        proof {
            self.lemma_views();
        }
        match self.stations.get(station_id) {
            Some(st) => st.can_accept_task(),
            None => false,
        }
    }
}


impl Scheduler {
    /// The position, among the pending entries, of the first task in
    /// scheduling order that qualifies in the pass.
    fn scan(&self, entries: &Vec<(&String, &ScheduledTask)>, first_pass: bool) -> (r: Option<usize>)
        requires
            self.wf(),
            entries@.len() == self.pending.keys().len(),
            forall|i: int| 0 <= i < entries@.len() ==> (#[trigger] entries@[i]).0@ == self.pending.keys()[i]
                && *entries@[i].1 == self.pending.vals()[i],
        ensures
            r is None ==> forall|k: Seq<char>| #[trigger] self.pending_map().contains_key(k)
                ==> !self.qualifies(self.pending_map()[k], first_pass),
            r matches Some(b) ==> b < entries@.len() && self.least(self.pending.keys()[b as int], first_pass),
    {
        proof {
            self.pending.lemma_entries();
        }
        let ghost keys = self.pending.keys();
        let ghost vals = self.pending.vals();
        let mut best: Option<usize> = None;
        let mut j: usize = 0;
        while j < entries.len()
            invariant
                self.wf(),
                keys == self.pending.keys(),
                vals == self.pending.vals(),
                entries@.len() == keys.len(),
                forall|i: int| 0 <= i < entries@.len() ==> (#[trigger] entries@[i]).0@ == keys[i] && *entries@[i].1 == vals[i],
                forall|i: int| #![trigger keys[i]] 0 <= i < keys.len() ==> self.pending_map().contains_key(keys[i])
                    && self.pending_map()[keys[i]] == vals[i],
                j <= entries@.len(),
                best is None ==> forall|i: int| 0 <= i < j ==> !self.qualifies(#[trigger] vals[i], first_pass),
                best matches Some(b) ==> b < j && self.qualifies(vals[b as int], first_pass)
                    && forall|i: int| 0 <= i < j && self.qualifies(#[trigger] vals[i], first_pass) ==> !key_lt(vals[i], vals[b as int]),
            decreases entries@.len() - j,
        {
            let t = entries[j].1;
            let station_ok = if first_pass {
                match &self.last_scheduled_station {
                    Some(l) => !str_eq(t.station_id.as_str(), l.as_str()),
                    None => false,
                }
            } else {
                true
            };
            if station_ok && self.accepts(t.station_id.as_str()) {
                match best {
                    None => {
                        proof {
                            lemma_key_irreflexive(*t);
                        }
                        best = Some(j);
                    },
                    Some(b) => {
                        if key_less(t, entries[b].1) {
                            proof {
                                lemma_key_irreflexive(*t);
                                assert forall|i: int| 0 <= i < j + 1 && self.qualifies(#[trigger] vals[i], first_pass)
                                    implies !key_lt(vals[i], vals[j as int]) by {
                                    if i < j && key_lt(vals[i], vals[j as int]) {
                                        lemma_key_transitive(vals[i], vals[j as int], vals[b as int]);
                                    }
                                }
                            }
                            best = Some(j);
                        }
                    },
                }
            }
            j = j + 1;
        }
        proof {
            match best {
                None => {
                    assert forall|k: Seq<char>| #[trigger] self.pending_map().contains_key(k)
                        implies !self.qualifies(self.pending_map()[k], first_pass) by {
                        assert(has_key(keys, k));
                        let i = choose|i: int| 0 <= i < keys.len() && #[trigger] keys[i] == k;
                    }
                },
                Some(b) => {
                    assert forall|k2: Seq<char>| #[trigger] self.pending_map().contains_key(k2)
                        && self.qualifies(self.pending_map()[k2], first_pass)
                        implies !key_lt(self.pending_map()[k2], self.pending_map()[keys[b as int]]) by {
                        assert(has_key(keys, k2));
                        let i = choose|i: int| 0 <= i < keys.len() && #[trigger] keys[i] == k2;
                    }
                },
            }
        }
        best
    }

    /// Starts the next task: the first pending task, in scheduling order,
    /// whose station has room and differs from the station scheduled last;
    /// failing that, the first whose station has room. Gives `None`, and
    /// changes nothing, when no station has room for a pending task.
    pub fn next(&mut self) -> (r: Option<ScheduledTask>)
        requires
            old(self).wf(),
        ensures
            final(self).wf(),
            old(self).pick() is None ==> r is None && *final(self) == *old(self),
            old(self).pick() matches Some(k) ==> (r matches Some(t) && t == old(self).pending_map()[k] && {
                let st = t.station_id@;
                &&& final(self).pending_map() == old(self).pending_map().remove(k)
                &&& final(self).limits() == old(self).limits()
                &&& final(self).running() == old(self).running().insert(st, final(self).running()[st])
                &&& inserted(old(self).running()[st], k, final(self).running()[st])
                &&& sorted_ids(final(self).running()[st])
                &&& final(self).last_station() == Some(st)
                &&& final(self).epoch() == old(self).epoch()
                &&& final(self).default_limit() == old(self).default_limit()
            }),
    {
        let ghost before = *self;
        proof {
            before.lemma_views();
        }
        let chosen: Option<String> = {
            let entries = self.pending.iter_pairs();
            let mut found = self.scan(&entries, true);
            if found.is_none() {
                found = self.scan(&entries, false);
            }
            match found {
                Some(b) => Some(entries[b].0.clone()),
                None => None,
            }
        };
        proof {
            if exists|k: Seq<char>| self.least(k, true) {
                let k = choose|k: Seq<char>| self.least(k, true);
                if chosen is Some {
                    let c = chosen->Some_0@;
                    if self.least(c, true) {
                        self.lemma_least_unique(c, k, true);
                    }
                }
            } else if exists|k: Seq<char>| self.least(k, false) {
                let k = choose|k: Seq<char>| self.least(k, false);
                if chosen is Some {
                    let c = chosen->Some_0@;
                    self.lemma_least_unique(c, k, false);
                }
            }
        }
        let k = match chosen {
            Some(k) => k,
            None => {
                return None;
            },
        };
        let task = match self.pending.remove(k.as_str()) {
            Some(t) => t,
            None => {
                return None;
            },
        };
        let st = task.station_id.clone();
        let mut station = match self.stations.remove(st.as_str()) {
            Some(s) => s,
            None => {
                return None;
            },
        };
        assert(station.ok(st@));
        proof {
            assert(before.least(k@, true) || before.least(k@, false));
            assert(before.eligible(task));
            assert(before.running()[st@] == strings_view(station.active_tasks@));
        }
        let ghost old_run = strings_view(station.active_tasks@);
        station.add_sorted(task.task_id.clone());
        let ghost new_run = strings_view(station.active_tasks@);
        self.stations.insert(st.clone(), station);
        self.last_scheduled_station = Some(st);
        proof {
            assert(self.limits() =~= before.limits());
            assert(self.running() =~= before.running().insert(task.station_id@, new_run));
            assert(old_run == before.running()[task.station_id@]);
            assert forall|x: Seq<char>| #[trigger] self.pending.map().contains_key(x) implies self.pending.map()[x].task_id@ == x
                && self.stations.map().contains_key(self.pending.map()[x].station_id@) by {
                assert(before.pending.map().contains_key(x));
                assert(before.stations.map().contains_key(before.pending.map()[x].station_id@));
            }
            assert forall|x: Seq<char>| #[trigger] self.stations.map().contains_key(x) implies self.stations.map()[x].ok(x) by {
                if x != task.station_id@ {
                    assert(before.stations.map().contains_key(x));
                } else {
                    let p = choose|p: int| 0 <= p <= old_run.len() && new_run == old_run.insert(p, task.task_id@);
                    assert(new_run.len() == old_run.len() + 1);
                    assert(self.stations.map()[x].active_tasks@.len() == new_run.len());
                }
            }
        }
        Some(task)
    }

    /// Marks a running task of a station as done.
    pub fn complete(&mut self, task_id: &str, station_id: &str) -> (r: Result<(), SchedulerError>)
        requires
            old(self).wf(),
        ensures
            final(self).wf(),
            final(self).pending_map() == old(self).pending_map(),
            final(self).limits() == old(self).limits(),
            final(self).last_station() == old(self).last_station(),
            final(self).epoch() == old(self).epoch(),
            final(self).default_limit() == old(self).default_limit(),
            !old(self).running().contains_key(station_id@) ==> (r matches Err(SchedulerError::StationNotFound { station_id: s })
                && s@ == station_id@ && final(self).running() == old(self).running()),
            old(self).running().contains_key(station_id@) && !old(self).running()[station_id@].contains(task_id@) ==> (r matches Err(
                SchedulerError::TaskNotFound { task_id: t }) && t@ == task_id@ && final(self).running() == old(self).running()),
            old(self).running().contains_key(station_id@) && old(self).running()[station_id@].contains(task_id@) ==> {
                &&& r is Ok
                &&& final(self).running() == old(self).running().insert(station_id@, final(self).running()[station_id@])
                &&& removed_first(old(self).running()[station_id@], task_id@, final(self).running()[station_id@])
            },
    {
        let ghost before = *self;
        proof {
            before.lemma_views();
        }
        if !self.stations.contains_key(station_id) {
            return Err(SchedulerError::StationNotFound { station_id: owned(station_id) });
        }
        let mut station = match self.stations.remove(station_id) {
            Some(s) => s,
            None => {
                return Err(SchedulerError::StationNotFound { station_id: owned(station_id) });
            },
        };
        assert(station.ok(station_id@));
        let ghost old_run = strings_view(station.active_tasks@);
        let found = station.remove_first(task_id);
        let key = station.station_id.clone();
        self.stations.insert(key, station);
        proof {
            assert(self.limits() =~= before.limits());
            if !found {
                assert(self.running() =~= before.running());
            } else {
                let p = choose|p: int| #![trigger old_run[p]] 0 <= p < old_run.len() && old_run[p] == task_id@
                    && (forall|j: int| 0 <= j < p ==> old_run[j] != task_id@)
                    && strings_view(self.stations.map()[station_id@].active_tasks@) == old_run.remove(p);
                assert(strings_view(self.stations.map()[station_id@].active_tasks@).len() == old_run.len() - 1);
            }
            assert forall|x: Seq<char>| #[trigger] self.pending.map().contains_key(x) implies self.pending.map()[x].task_id@ == x
                && self.stations.map().contains_key(self.pending.map()[x].station_id@) by {
                assert(before.pending.map().contains_key(x));
                assert(before.stations.map().contains_key(before.pending.map()[x].station_id@));
            }
            assert forall|x: Seq<char>| #[trigger] self.stations.map().contains_key(x) implies self.stations.map()[x].ok(x) by {
                if x != station_id@ {
                    assert(before.stations.map().contains_key(x));
                }
            }
        }
        if found {
            Ok(())
        } else {
            Err(SchedulerError::TaskNotFound { task_id: owned(task_id) })
        }
    }

    /// Takes a pending task off the queue before it starts.
    pub fn cancel(&mut self, task_id: &str) -> (r: Result<ScheduledTask, SchedulerError>)
        requires
            old(self).wf(),
        ensures
            final(self).wf(),
            final(self).limits() == old(self).limits(),
            final(self).running() == old(self).running(),
            final(self).last_station() == old(self).last_station(),
            final(self).epoch() == old(self).epoch(),
            final(self).default_limit() == old(self).default_limit(),
            old(self).pending_map().contains_key(task_id@) ==> (r matches Ok(t) && t == old(self).pending_map()[task_id@]
                && final(self).pending_map() == old(self).pending_map().remove(task_id@)),
            !old(self).pending_map().contains_key(task_id@) ==> (r matches Err(SchedulerError::TaskNotFound { task_id: t })
                && t@ == task_id@ && final(self).pending_map() == old(self).pending_map()),
    {
        let ghost before = *self;
        let removed = self.pending.remove(task_id);
        proof {
            assert forall|x: Seq<char>| #[trigger] self.pending.map().contains_key(x) implies self.pending.map()[x].task_id@ == x
                && self.stations.map().contains_key(self.pending.map()[x].station_id@) by {
                assert(before.pending.map().contains_key(x));
            }
            if !before.pending_map().contains_key(task_id@) {
                assert(self.pending_map() =~= before.pending_map());
            }
        }
        match removed {
            Some(t) => Ok(t),
            None => Err(SchedulerError::TaskNotFound { task_id: owned(task_id) }),
        }
    }

    /// The number of pending tasks.
    pub fn pending_count(&self) -> (r: usize)
        requires
            self.wf(),
        ensures
            r == self.pending_map().dom().len(),
    {
        proof {
            lemma_dom_len(&self.pending);
        }
        self.pending.len()
    }

    /// The number of tasks a station is running, if the station exists.
    pub fn station_active_count(&self, station_id: &str) -> (r: Option<usize>)
        requires
            self.wf(),
        ensures
            r is Some <==> self.running().contains_key(station_id@),
            r matches Some(n) ==> n == self.running()[station_id@].len(),
    {
        proof {
            self.lemma_views();
        }
        match self.stations.get(station_id) {
            Some(st) => Some(st.active_tasks.len()),
            None => None,
        }
    }

    /// The room left at a station, if the station exists.
    pub fn station_available_slots(&self, station_id: &str) -> (r: Option<usize>)
        requires
            self.wf(),
        ensures
            r is Some <==> self.running().contains_key(station_id@),
            r matches Some(n) ==> n == self.limits()[station_id@] - self.running()[station_id@].len(),
    {
        proof {
            self.lemma_views();
        }
        match self.stations.get(station_id) {
            Some(st) => Some(st.wip_limit - st.active_tasks.len()),
            None => None,
        }
    }

    /// The ids a station is running, in order, if the station exists.
    pub fn station_active_tasks(&self, station_id: &str) -> (r: Option<Vec<String>>)
        requires
            self.wf(),
        ensures
            r is Some <==> self.running().contains_key(station_id@),
            r matches Some(v) ==> strings_view(v@) == self.running()[station_id@],
    {
        proof {
            self.lemma_views();
        }
        match self.stations.get(station_id) {
            Some(st) => Some(clone_strings(&st.active_tasks)),
            None => None,
        }
    }

    /// Moves to the next epoch and gives it.
    pub fn advance_epoch(&mut self) -> (r: u64)
        requires
            old(self).epoch() < u64::MAX,
        ensures
            r == old(self).epoch() + 1,
            final(self).epoch() == r,
            final(self).pending_map() == old(self).pending_map(),
            final(self).limits() == old(self).limits(),
            final(self).running() == old(self).running(),
            final(self).last_station() == old(self).last_station(),
            final(self).default_limit() == old(self).default_limit(),
            final(self).wf() == old(self).wf(),
    {
        self.current_epoch = self.current_epoch + 1;
        self.current_epoch
    }

    /// The current epoch.
    pub fn current_epoch(&self) -> (r: u64)
        ensures
            r == self.epoch(),
    {
        self.current_epoch
    }

    /// The station ids, in increasing string order.
    pub fn stations(&self) -> (r: Vec<String>)
        requires
            self.wf(),
        ensures
            forall|i: int, j: int| 0 <= i < j < r@.len() ==> str_lt(#[trigger] strings_view(r@)[i], #[trigger] strings_view(r@)[j]),
            forall|x: Seq<char>| #[trigger] strings_view(r@).contains(x) <==> self.running().contains_key(x),
    {
        proof {
            self.lemma_views();
            self.stations.lemma_entries();
        }
        let entries = self.stations.iter_pairs();
        let mut out: Vec<String> = Vec::new();
        let mut j: usize = 0;
        while j < entries.len()
            invariant
                self.wf(),
                entries@.len() == self.stations.keys().len(),
                forall|i: int| 0 <= i < entries@.len() ==> (#[trigger] entries@[i]).0@ == self.stations.keys()[i],
                j <= entries@.len(),
                strings_view(out@) == self.stations.keys().take(j as int),
            decreases entries@.len() - j,
        {
            let ghost before = strings_view(out@);
            out.push(entries[j].0.clone());
            assert(strings_view(out@) =~= before.push(self.stations.keys()[j as int]));
            assert(self.stations.keys().take(j + 1) =~= self.stations.keys().take(j as int).push(self.stations.keys()[j as int]));
            j = j + 1;
        }
        assert(self.stations.keys().take(j as int) =~= self.stations.keys());
        proof {
            let k = self.stations.keys();
            assert forall|x: Seq<char>| #[trigger] strings_view(out@).contains(x) <==> self.running().contains_key(x) by {
                if k.contains(x) {
                    let i = choose|i: int| 0 <= i < k.len() && k[i] == x;
                    assert(has_key(k, x));
                }
                if self.running().contains_key(x) {
                    let i = choose|i: int| 0 <= i < k.len() && #[trigger] k[i] == x;
                    assert(k[i] == x);
                }
            }
        }
        out
    }

    /// Drops every pending task and empties every station; limits stay.
    pub fn clear(&mut self)
        requires
            old(self).wf(),
        ensures
            final(self).wf(),
            final(self).pending_map() == Map::<Seq<char>, ScheduledTask>::empty(),
            final(self).limits() == old(self).limits(),
            final(self).running() == old(self).running().map_values(|s: Seq<Seq<char>>| Seq::<Seq<char>>::empty()),
            final(self).last_station() is None,
            final(self).epoch() == old(self).epoch(),
            final(self).default_limit() == old(self).default_limit(),
    {
        let ghost before = *self;
        proof {
            before.lemma_views();
        }
        self.pending.clear();
        let ids = self.stations();
        proof {
            let v = strings_view(ids@);
            assert forall|p: int, q: int| 0 <= p < v.len() && 0 <= q < v.len() && p != q implies v[p] != v[q] by {
                if p < q {
                    assert(str_lt(v[p], v[q]));
                    lemma_lex_irreflexive(v[p], 0);
                } else {
                    assert(str_lt(v[q], v[p]));
                    lemma_lex_irreflexive(v[q], 0);
                }
            }
        }
        let mut i: usize = 0;
        while i < ids.len()
            invariant
                before.wf(),
                self.current_epoch == before.current_epoch,
                self.default_wip_limit == before.default_wip_limit,
                self.stations.wf(),
                self.pending.wf(),
                self.pending.map() == Map::<Seq<char>, ScheduledTask>::empty(),
                forall|x: Seq<char>| #[trigger] strings_view(ids@).contains(x) <==> before.running().contains_key(x),
                forall|x: Seq<char>| #[trigger] before.running().contains_key(x) <==> before.stations.map().contains_key(x),
                strings_view(ids@).no_duplicates(),
                i <= ids@.len(),
                forall|x: Seq<char>| #[trigger] self.stations.map().contains_key(x) == before.stations.map().contains_key(x),
                forall|x: Seq<char>| #[trigger] self.stations.map().contains_key(x) ==> self.stations.map()[x].ok(x)
                    && self.stations.map()[x].wip_limit == before.stations.map()[x].wip_limit
                    && (strings_view(ids@).take(i as int).contains(x) ==> self.stations.map()[x].active_tasks@.len() == 0)
                    && (!strings_view(ids@).take(i as int).contains(x) ==> self.stations.map()[x] == before.stations.map()[x]),
            decreases ids@.len() - i,
        {
            let ghost v = strings_view(ids@);
            let ghost x0 = v[i as int];
            let ghost t0 = v.take(i as int);
            let ghost t1 = v.take(i + 1);
            assert(t1 =~= t0.push(x0));
            assert(v.contains(x0));
            assert(!t0.contains(x0)) by {
                if t0.contains(x0) {
                    let m = choose|m: int| 0 <= m < t0.len() && t0[m] == x0;
                    assert(v[m] == v[i as int]);
                }
            }
            let ghost mid = *self;
            let mut st = match self.stations.remove(ids[i].as_str()) {
                Some(s) => s,
                None => {
                    proof {
                        assert(before.running().contains_key(x0));
                    }
                    i = i + 1;
                    continue;
                },
            };
            assert(st.ok(x0));
            st.active_tasks.clear();
            let key = st.station_id.clone();
            self.stations.insert(key, st);
            proof {
                assert forall|x: Seq<char>| #[trigger] self.stations.map().contains_key(x) implies self.stations.map()[x].ok(x)
                    && self.stations.map()[x].wip_limit == before.stations.map()[x].wip_limit
                    && (t1.contains(x) ==> self.stations.map()[x].active_tasks@.len() == 0)
                    && (!t1.contains(x) ==> self.stations.map()[x] == before.stations.map()[x]) by {
                    if x == x0 {
                        assert(strings_view(self.stations.map()[x].active_tasks@) =~= Seq::<Seq<char>>::empty());
                        assert(t1[i as int] == x0);
                    } else {
                        assert(mid.stations.map().contains_key(x));
                        if t1.contains(x) {
                            let m = choose|m: int| 0 <= m < t1.len() && t1[m] == x;
                            assert(m < i);
                            assert(t0[m] == x);
                        }
                        if t0.contains(x) {
                            let m = choose|m: int| 0 <= m < t0.len() && t0[m] == x;
                            assert(t1[m] == x);
                        }
                    }
                }
            }
            i = i + 1;
        }
        self.last_scheduled_station = None;
        proof {
            let v = strings_view(ids@);
            assert(v.take(i as int) =~= v);
            assert(self.limits() =~= before.limits());
            assert(self.running() =~= before.running().map_values(|s: Seq<Seq<char>>| Seq::<Seq<char>>::empty())) by {
                assert forall|x: Seq<char>| #[trigger] self.running().contains_key(x) implies self.running()[x]
                    == Seq::<Seq<char>>::empty() by {
                    assert(v.contains(x));
                    assert(strings_view(self.stations.map()[x].active_tasks@) =~= Seq::<Seq<char>>::empty());
                }
            }
        }
    }
}


/// `m` occurs in `o`.
spec fn covers(o: Seq<usize>, m: int) -> bool {
    exists|a: int| 0 <= a < o.len() && #[trigger] o[a] == m
}

impl Scheduler {
    /// The ids of the pending tasks, in scheduling order.
    pub fn pending_tasks(&self) -> (r: Vec<String>)
        requires
            self.wf(),
        ensures
            strings_view(r@).no_duplicates(),
            forall|x: Seq<char>| #[trigger] strings_view(r@).contains(x) <==> self.pending_map().contains_key(x),
            forall|i: int, j: int| 0 <= i < j < r@.len() ==> key_lt(
                self.pending_map()[#[trigger] strings_view(r@)[i]], self.pending_map()[#[trigger] strings_view(r@)[j]]),
    {
        proof {
            self.pending.lemma_entries();
        }
        let ghost keys = self.pending.keys();
        let vals = self.pending.values();
        let ghost vs = self.pending.vals();
        proof {
            assert forall|a: int, b: int| 0 <= a < vs.len() && 0 <= b < vs.len() && a != b
                implies #[trigger] vs[a].task_id@ != #[trigger] vs[b].task_id@ by {
                assert(self.pending_map()[keys[a]] == vs[a]);
                assert(self.pending_map()[keys[b]] == vs[b]);
                if keys[a] == keys[b] {
                    lemma_key_unique(keys, a, b);
                }
            }
        }
        let mut order: Vec<usize> = Vec::new();
        let mut j: usize = 0;
        while j < vals.len()
            invariant
                self.wf(),
                keys == self.pending.keys(),
                vs == self.pending.vals(),
                vals@.len() == vs.len(),
                vs.len() == keys.len(),
                forall|i: int| 0 <= i < vals@.len() ==> *vals@[i] == vs[i],
                forall|a: int, b: int| 0 <= a < vs.len() && 0 <= b < vs.len() && a != b
                    ==> #[trigger] vs[a].task_id@ != #[trigger] vs[b].task_id@,
                j <= vals@.len(),
                order@.len() == j,
                forall|a: int| 0 <= a < order@.len() ==> #[trigger] order@[a] < j,
                forall|m: int| 0 <= m < j ==> #[trigger] covers(order@, m),
                forall|a: int, b: int| 0 <= a < b < order@.len() ==> key_lt(vs[#[trigger] order@[a] as int], vs[#[trigger] order@[b] as int]),
            decreases vals@.len() - j,
        {
            let t = vals[j];
            let mut p: usize = 0;
            while p < order.len() && key_less(vals[order[p]], t)
                invariant
                    vals@.len() == vs.len(),
                    forall|i: int| 0 <= i < vals@.len() ==> *vals@[i] == vs[i],
                    j < vals@.len(),
                    *t == vs[j as int],
                    order@.len() == j,
                    forall|a: int| 0 <= a < order@.len() ==> #[trigger] order@[a] < j,
                    p <= order@.len(),
                    forall|a: int| 0 <= a < p ==> key_lt(vs[#[trigger] order@[a] as int], vs[j as int]),
                decreases order@.len() - p,
            {
                p = p + 1;
            }
            let ghost before = order@;
            order.insert(p, j);
            proof {
                let o = order@;
                assert(o =~= before.insert(p as int, j));
                assert forall|a: int, b: int| 0 <= a < b < o.len() implies key_lt(vs[#[trigger] o[a] as int], vs[#[trigger] o[b] as int]) by {
                    if b < p {
                        assert(o[a] == before[a] && o[b] == before[b]);
                    } else if b == p {
                        assert(o[a] == before[a] && o[b] == j);
                    } else if a == p {
                        assert(o[a] == j && o[b] == before[b - 1]);
                        let q = before[p as int] as int;
                        assert(!key_lt(vs[q], vs[j as int]));
                        lemma_key_total(vs[q], vs[j as int]);
                        if b - 1 > p {
                            lemma_key_transitive(vs[j as int], vs[q], vs[before[b - 1] as int]);
                        }
                    } else if a < p {
                        assert(o[a] == before[a] && o[b] == before[b - 1]);
                        if b - 1 == p as int {
                            let q = before[p as int] as int;
                            assert(!key_lt(vs[q], vs[j as int]));
                            lemma_key_total(vs[q], vs[j as int]);
                            lemma_key_transitive(vs[before[a] as int], vs[j as int], vs[q]);
                        } else {
                            assert(a < b - 1);
                        }
                    } else {
                        assert(o[a] == before[a - 1] && o[b] == before[b - 1]);
                    }
                }
                assert forall|m: int| 0 <= m < j + 1 implies #[trigger] covers(o, m) by {
                    if m == j {
                        assert(o[p as int] == j);
                    } else {
                        assert(covers(before, m));
                        let a = choose|a: int| 0 <= a < before.len() && #[trigger] before[a] == m;
                        if a < p {
                            assert(o[a] == m);
                        } else {
                            assert(o[a + 1] == m);
                        }
                    }
                }
                assert forall|a: int| 0 <= a < o.len() implies #[trigger] o[a] < j + 1 by {
                    if a < p {
                        assert(o[a] == before[a]);
                    } else if a > p {
                        assert(o[a] == before[a - 1]);
                    }
                }
            }
            j = j + 1;
        }
        let mut out: Vec<String> = Vec::new();
        let mut a: usize = 0;
        while a < order.len()
            invariant
                self.wf(),
                keys == self.pending.keys(),
                vs == self.pending.vals(),
                vals@.len() == vs.len(),
                vs.len() == keys.len(),
                forall|i: int| 0 <= i < vals@.len() ==> *vals@[i] == vs[i],
                order@.len() == vs.len(),
                forall|b: int| 0 <= b < order@.len() ==> #[trigger] order@[b] < vs.len(),
                forall|m: int| 0 <= m < vs.len() ==> #[trigger] covers(order@, m),
                forall|b1: int, b2: int| 0 <= b1 < b2 < order@.len() ==> key_lt(vs[#[trigger] order@[b1] as int], vs[#[trigger] order@[b2] as int]),
                a <= order@.len(),
                out@.len() == a,
                forall|b: int| 0 <= b < a ==> #[trigger] strings_view(out@)[b] == vs[order@[b] as int].task_id@,
            decreases order@.len() - a,
        {
            let ghost prev = out@;
            out.push(vals[order[a]].task_id.clone());
            proof {
                assert forall|b: int| 0 <= b < a + 1 implies #[trigger] strings_view(out@)[b] == vs[order@[b] as int].task_id@ by {
                    assert(strings_view(out@)[b] == out@[b]@);
                    if b < a {
                        assert(out@[b] == prev[b]);
                        assert(strings_view(prev)[b] == prev[b]@);
                    }
                }
            }
            a = a + 1;
        }
        proof {
            let v = strings_view(out@);
            assert forall|i: int| 0 <= i < vs.len() implies #[trigger] self.pending_map()[vs[i].task_id@] == vs[i]
                && self.pending_map().contains_key(vs[i].task_id@) by {
                assert(self.pending_map()[keys[i]] == vs[i]);
                assert(vs[i].task_id@ == keys[i]);
            }
            assert forall|p: int, q: int| 0 <= p < v.len() && 0 <= q < v.len() && p != q implies v[p] != v[q] by {
                if p < q {
                    assert(key_lt(vs[order@[p] as int], vs[order@[q] as int]));
                    if order@[p] == order@[q] {
                        lemma_key_irreflexive(vs[order@[p] as int]);
                    }
                } else {
                    assert(key_lt(vs[order@[q] as int], vs[order@[p] as int]));
                    if order@[p] == order@[q] {
                        lemma_key_irreflexive(vs[order@[p] as int]);
                    }
                }
            }
            assert forall|x: Seq<char>| #[trigger] v.contains(x) <==> self.pending_map().contains_key(x) by {
                if v.contains(x) {
                    let p = choose|p: int| 0 <= p < v.len() && v[p] == x;
                    assert(v[p] == vs[order@[p] as int].task_id@);
                }
                if self.pending_map().contains_key(x) {
                    assert(has_key(keys, x));
                    let m = choose|m: int| 0 <= m < keys.len() && #[trigger] keys[m] == x;
                    assert(covers(order@, m));
                    let b = choose|b: int| 0 <= b < order@.len() && #[trigger] order@[b] == m;
                    assert(v[b] == vs[m].task_id@);
                    assert(self.pending_map()[keys[m]] == vs[m]);
                }
            }
            assert forall|i: int, j: int| 0 <= i < j < out@.len() implies key_lt(
                self.pending_map()[#[trigger] v[i]], self.pending_map()[#[trigger] v[j]]) by {
                assert(v[i] == vs[order@[i] as int].task_id@);
                assert(v[j] == vs[order@[j] as int].task_id@);
                assert(self.pending_map()[vs[order@[i] as int].task_id@] == vs[order@[i] as int]);
                assert(self.pending_map()[vs[order@[j] as int].task_id@] == vs[order@[j] as int]);
            }
        }
        out
    }
}

impl Scheduler {
    proof fn min_upto(&self, n: int) -> (b: int)
        requires
            self.wf(),
            0 <= n <= self.pending.keys().len(),
            exists|i: int| 0 <= i < n && self.qualifies(#[trigger] self.pending.vals()[i], false),
        ensures
            0 <= b < n,
            self.qualifies(self.pending.vals()[b], false),
            forall|i: int| 0 <= i < n && self.qualifies(#[trigger] self.pending.vals()[i], false)
                ==> !key_lt(self.pending.vals()[i], self.pending.vals()[b]),
        decreases n,
    {
        let vals = self.pending.vals();
        if exists|i: int| 0 <= i < n - 1 && self.qualifies(#[trigger] vals[i], false) {
            let b0 = self.min_upto(n - 1);
            if self.qualifies(vals[n - 1], false) && key_lt(vals[n - 1], vals[b0]) {
                lemma_key_irreflexive(vals[n - 1]);
                assert forall|i: int| 0 <= i < n && self.qualifies(#[trigger] vals[i], false)
                    implies !key_lt(vals[i], vals[n - 1]) by {
                    if i < n - 1 && key_lt(vals[i], vals[n - 1]) {
                        lemma_key_transitive(vals[i], vals[n - 1], vals[b0]);
                    }
                }
                n - 1
            } else {
                b0
            }
        } else {
            lemma_key_irreflexive(vals[n - 1]);
            n - 1
        }
    }

    proof fn lemma_first_exists(&self, k: Seq<char>)
        requires
            self.wf(),
            self.pending_map().contains_key(k),
            self.eligible(self.pending_map()[k]),
        ensures
            exists|x: Seq<char>| self.least(x, false),
    {
        self.pending.lemma_entries();
        let keys = self.pending.keys();
        let vals = self.pending.vals();
        assert(has_key(keys, k));
        let i0 = choose|i: int| 0 <= i < keys.len() && #[trigger] keys[i] == k;
        assert(self.pending_map()[keys[i0]] == vals[i0]);
        assert(self.qualifies(vals[i0], false));
        let b = self.min_upto(keys.len() as int);
        assert(self.pending_map()[keys[b]] == vals[b]);
        assert forall|k2: Seq<char>| #[trigger] self.pending_map().contains_key(k2)
            && self.qualifies(self.pending_map()[k2], false) implies !key_lt(self.pending_map()[k2], self.pending_map()[keys[b]]) by {
            assert(has_key(keys, k2));
            let i = choose|i: int| 0 <= i < keys.len() && #[trigger] keys[i] == k2;
            assert(self.pending_map()[keys[i]] == vals[i]);
        }
        assert(self.least(keys[b], false));
    }
}

impl Default for Scheduler {
    fn default() -> (r: Self)
        ensures
            r.wf(),
            r.pending_map() == Map::<Seq<char>, ScheduledTask>::empty(),
            r.running() == Map::<Seq<char>, Seq<Seq<char>>>::empty(),
            r.last_station() is None,
            r.epoch() == 0,
            r.default_limit() == 10,
    {
        Scheduler::new(10)
    }
}

/// No station ever runs more tasks than its limit, and each runs its ids
/// in order.
pub proof fn lemma_wip_respected(s: Scheduler)
    requires
        s.wf(),
    ensures
        forall|st: Seq<char>| #[trigger] s.running().contains_key(st) ==> s.limits().contains_key(st)
            && s.running()[st].len() <= s.limits()[st] && sorted_ids(s.running()[st]),
{
    s.lemma_views();
}

/// The pick is a pending task whose station has room; no task before it in
/// scheduling order could have been picked in the pass that picked it.
pub proof fn lemma_pick_is_first(s: Scheduler)
    requires
        s.wf(),
        s.pick() is Some,
    ensures
        s.pending_map().contains_key(s.pick()->Some_0),
        s.eligible(s.pending_map()[s.pick()->Some_0]),
        s.least(s.pick()->Some_0, true) || s.least(s.pick()->Some_0, false),
{
}

/// When some pending task's station has room, the scheduler picks one.
pub proof fn lemma_pick_when_room(s: Scheduler, k: Seq<char>)
    requires
        s.wf(),
        s.pending_map().contains_key(k),
        s.eligible(s.pending_map()[k]),
    ensures
        s.pick() is Some,
{
    if !(exists|x: Seq<char>| s.least(x, true)) && !(exists|x: Seq<char>| s.least(x, false)) {
        // Among the finitely many pending tasks that qualify, one comes first.
        s.lemma_first_exists(k);
    }
}


/// `p` is more urgent than `q`: the classes in order are Critical, High,
/// Normal, Low and Idle.
pub open spec fn more_urgent(p: PriorityClass, q: PriorityClass) -> bool {
    match p {
        PriorityClass::Critical => q != PriorityClass::Critical,
        PriorityClass::High => q == PriorityClass::Normal || q == PriorityClass::Low || q == PriorityClass::Idle,
        PriorityClass::Normal => q == PriorityClass::Low || q == PriorityClass::Idle,
        PriorityClass::Low => q == PriorityClass::Idle,
        PriorityClass::Idle => false,
    }
}

/// Of two pending tasks whose stations have room, the one from an earlier
/// epoch, or from the same epoch with a more urgent class, or else with the
/// lexicographically smaller station id, or else (same station) the smaller
/// task id, is picked before the other: the scheduler picks a task, and not the later one, unless the
/// earlier one's station is the one scheduled last (which the next pick
/// avoids).
pub proof fn law_earlier_key_picked_first(s: Scheduler, ka: Seq<char>, kb: Seq<char>)
    requires
        s.wf(),
        s.pending_map().contains_key(ka),
        s.pending_map().contains_key(kb),
        s.eligible(s.pending_map()[ka]),
        s.eligible(s.pending_map()[kb]),
        s.pending_map()[ka].epoch < s.pending_map()[kb].epoch
            || (s.pending_map()[ka].epoch == s.pending_map()[kb].epoch
                && more_urgent(s.pending_map()[ka].priority, s.pending_map()[kb].priority))
            || (s.pending_map()[ka].epoch == s.pending_map()[kb].epoch
                && s.pending_map()[ka].priority == s.pending_map()[kb].priority
                && str_lt(s.pending_map()[ka].station_id@, s.pending_map()[kb].station_id@))
            || (s.pending_map()[ka].epoch == s.pending_map()[kb].epoch
                && s.pending_map()[ka].priority == s.pending_map()[kb].priority
                && s.pending_map()[ka].station_id@ == s.pending_map()[kb].station_id@
                && str_lt(ka, kb)),
        s.last_station() != Some(s.pending_map()[ka].station_id@),
    ensures
        s.pick() is Some,
        s.pick() != Some(kb),
{
    lemma_pick_when_room(s, ka);
    let a = s.pending_map()[ka];
    let b = s.pending_map()[kb];
    assert(key_lt(a, b));
    if s.pick() == Some(kb) {
        if exists|k: Seq<char>| s.least(k, true) {
            assert(s.least(kb, true));
            assert(s.qualifies(a, true));
            assert(!key_lt(a, b));
        } else {
            assert(s.least(kb, false));
            assert(s.qualifies(a, false));
            assert(!key_lt(a, b));
        }
    }
}

/// A Critical task is picked before a High one of the same epoch when both
/// stations have room and the Critical task's station did not run last.
pub proof fn law_critical_before_high(s: Scheduler, kc: Seq<char>, kh: Seq<char>)
    requires
        s.wf(),
        s.pending_map().contains_key(kc),
        s.pending_map().contains_key(kh),
        s.pending_map()[kc].priority == PriorityClass::Critical,
        s.pending_map()[kh].priority == PriorityClass::High,
        s.pending_map()[kc].epoch == s.pending_map()[kh].epoch,
        s.eligible(s.pending_map()[kc]),
        s.eligible(s.pending_map()[kh]),
        s.last_station() != Some(s.pending_map()[kc].station_id@),
    ensures
        s.pick() is Some,
        s.pick() != Some(kh),
{
    law_earlier_key_picked_first(s, kc, kh);
}

} // verus!
