//! Bounded actuation: finite batches of state updates, applied atomically.
//!
//! Updates are staged up to a limit and committed together. A commit applies
//! them in order to a copy of the state and keeps the result only when every
//! update succeeds and the actuator's invariant, if any, accepts it; the
//! state is otherwise left as it was.
use vstd::prelude::*;
use crate::ambient::{new_uuid, now_rfc3339};
use crate::text::{dec_of, owned, push_decimal, push_str, strings_view, clone_strings};
use crate::domain::opt_str;

verus! {

/// Why an actuation failed.
#[derive(Debug, Clone)]
pub enum ActuationError {
    /// The batch would hold more updates than the limit allows.
    UpdateLimitExceeded { actual: usize, limit: usize },
    /// The invariant refused the updated state.
    InvariantViolation { reason: String },
    /// An update could not be applied.
    UpdateFailed { message: String },
    /// Nothing was staged.
    NoUpdatesStaged,
    /// Restoring the state failed.
    RollbackFailed { reason: String },
}

/// The text of an actuation error.
pub open spec fn actuation_error_text(e: ActuationError) -> Seq<char> {
    match e {
        ActuationError::UpdateLimitExceeded { actual, limit } => "Update batch size "@ + dec_of(actual as nat)
            + " exceeds limit "@ + dec_of(limit as nat),
        ActuationError::InvariantViolation { reason } => "Invariant violation: "@ + reason@,
        ActuationError::UpdateFailed { message } => "Update failed: "@ + message@,
        ActuationError::NoUpdatesStaged => "No updates staged for commit"@,
        ActuationError::RollbackFailed { reason } => "Rollback failed: "@ + reason@,
    }
}

impl ActuationError {
    /// The text of the error.
    pub fn message(&self) -> (r: String)
        ensures
            r@ == actuation_error_text(*self),
    {
        let mut m = String::new();
        match self {
            ActuationError::UpdateLimitExceeded { actual, limit } => {
                push_str(&mut m, "Update batch size ");
                push_decimal(*actual as u64, &mut m);
                push_str(&mut m, " exceeds limit ");
                push_decimal(*limit as u64, &mut m);
            },
            ActuationError::InvariantViolation { reason } => {
                push_str(&mut m, "Invariant violation: ");
                push_str(&mut m, reason.as_str());
            },
            ActuationError::UpdateFailed { message } => {
                push_str(&mut m, "Update failed: ");
                push_str(&mut m, message.as_str());
            },
            ActuationError::NoUpdatesStaged => {
                push_str(&mut m, "No updates staged for commit");
            },
            ActuationError::RollbackFailed { reason } => {
                push_str(&mut m, "Rollback failed: ");
                push_str(&mut m, reason.as_str());
            },
        }
        assert(m@ =~= actuation_error_text(*self));
        m
    }
}

/// How many updates a batch may hold.
#[derive(Debug, Clone, Copy)]
pub struct UpdateLimit {
    pub max_updates_per_batch: usize,
}

impl Default for UpdateLimit {
    fn default() -> (r: Self)
        ensures
            r.max_updates_per_batch == 100,
    {
        UpdateLimit { max_updates_per_batch: 100 }
    }
}

impl UpdateLimit {
    /// A limit of `max_updates_per_batch` updates.
    pub fn new(max_updates_per_batch: usize) -> (r: Self)
        ensures
            r.max_updates_per_batch == max_updates_per_batch,
    {
        UpdateLimit { max_updates_per_batch }
    }

    /// No practical limit.
    pub fn unlimited() -> (r: Self)
        ensures
            r.max_updates_per_batch == usize::MAX,
    {
        UpdateLimit { max_updates_per_batch: usize::MAX }
    }

    /// One update per batch.
    pub fn strict() -> (r: Self)
        ensures
            r.max_updates_per_batch == 1,
    {
        UpdateLimit { max_updates_per_batch: 1 }
    }
}

/// An update of a state of type `S`, for users to implement.
///
/// `outcome` states what `apply` does: the state it leaves, or `None` where
/// it fails.
pub trait StateUpdate<S>: Sized {
    /// The state that applying this update to `state` gives, or `None` where
    /// the update fails.
    spec fn outcome(&self, state: S) -> Option<S>;

    /// Applies the update to `state`; on failure the state is left as it
    /// was, and the message says why.
    fn apply(&self, state: &mut S) -> (r: Result<(), String>)
        ensures
            match r {
                Ok(()) => self.outcome(*old(state)) == Some(*final(state)),
                Err(_) => self.outcome(*old(state)) is None && *final(state) == *old(state),
            },
    ;

    /// A human-readable description of the update.
    fn description(&self) -> String;
}

/// The state that applying `updates` in order to `s` gives, or `None` where
/// one of them fails.
pub open spec fn run<S, U: StateUpdate<S>>(updates: Seq<U>, s: S) -> Option<S>
    decreases updates.len(),
{
    if updates.len() == 0 {
        Some(s)
    } else {
        match run(updates.drop_last(), s) {
            Some(t) => updates.last().outcome(t),
            None => None,
        }
    }
}

/// `run` on a prefix that fails fails on the whole.
pub proof fn lemma_run_fails_on<S, U: StateUpdate<S>>(updates: Seq<U>, s: S, k: int)
    requires
        0 <= k <= updates.len(),
        run(updates.take(k), s) is None,
    ensures
        run(updates, s) is None,
    decreases updates.len(),
{
    if k < updates.len() {
        assert(updates.drop_last().take(k) =~= updates.take(k));
        lemma_run_fails_on(updates.drop_last(), s, k);
    } else {
        assert(updates.take(k) =~= updates);
    }
}

/// Updates staged together, with an optional context.
#[derive(Debug)]
pub struct UpdateBatch<U> {
    updates: Vec<U>,
    context: Option<String>,
}

impl<U> UpdateBatch<U> {
    /// The updates, in order.
    pub closed spec fn items(&self) -> Seq<U> {
        self.updates@
    }

    /// The context of the batch.
    pub closed spec fn ctx(&self) -> Option<Seq<char>> {
        opt_str(self.context)
    }

    /// An empty batch without context.
    pub fn new() -> (r: Self)
        ensures
            r.items() == Seq::<U>::empty(),
            r.ctx() is None,
    {
        UpdateBatch { updates: Vec::new(), context: None }
    }

    /// Appends `update`.
    pub fn add(&mut self, update: U)
        ensures
            final(self).items() == old(self).items().push(update),
            final(self).ctx() == old(self).ctx(),
    {
        self.updates.push(update);
    }

    /// The batch with `context` as its context.
    pub fn with_context(self, context: String) -> (r: Self)
        ensures
            r.items() == self.items(),
            r.ctx() == Some(context@),
    {
        let mut b = self;
        b.context = Some(context);
        b
    }

    /// The number of updates.
    pub fn len(&self) -> (r: usize)
        ensures
            r == self.items().len(),
    {
        self.updates.len()
    }

    /// `true` iff the batch holds no update.
    pub fn is_empty(&self) -> (r: bool)
        ensures
            r == (self.items().len() == 0),
    {
        self.updates.len() == 0
    }

    /// The context of the batch.
    pub fn context(&self) -> (r: Option<&str>)
        ensures
            match r {
                Some(c) => self.ctx() == Some(c@),
                None => self.ctx() is None,
            },
    {
        match &self.context {
            Some(c) => Some(c.as_str()),
            None => None,
        }
    }
}

impl<U> Default for UpdateBatch<U> {
    fn default() -> (r: Self)
        ensures
            r.items() == Seq::<U>::empty(),
            r.ctx() is None,
    {
        Self::new()
    }
}

/// The record of a committed, or rolled back, batch.
#[derive(Debug)]
pub struct ActuationReceipt {
    /// A fresh identifier.
    pub id: String,
    /// When the batch was committed, in RFC 3339.
    pub timestamp: String,
    /// How many updates were applied.
    pub updates_applied: usize,
    /// The descriptions of the updates.
    pub update_descriptions: Vec<String>,
    /// The context given to the commit.
    pub context: Option<String>,
    /// `true` iff the batch was rolled back.
    pub rolled_back: bool,
    /// Why the batch was rolled back.
    pub error: Option<String>,
}

/// The abstract content of an actuation receipt.
pub struct ActuationReceiptView {
    pub id: Seq<char>,
    pub timestamp: Seq<char>,
    pub updates_applied: usize,
    pub update_descriptions: Seq<Seq<char>>,
    pub context: Option<Seq<char>>,
    pub rolled_back: bool,
    pub error: Option<Seq<char>>,
}

impl View for ActuationReceipt {
    type V = ActuationReceiptView;

    open spec fn view(&self) -> ActuationReceiptView {
        ActuationReceiptView {
            id: self.id@,
            timestamp: self.timestamp@,
            updates_applied: self.updates_applied,
            update_descriptions: strings_view(self.update_descriptions@),
            context: opt_str(self.context),
            rolled_back: self.rolled_back,
            error: opt_str(self.error),
        }
    }
}

fn clone_opt_string(o: &Option<String>) -> (r: Option<String>)
    ensures
        opt_str(r) == opt_str(*o),
{
    match o {
        Some(s) => Some(s.clone()),
        None => None,
    }
}

impl Clone for ActuationReceipt {
    fn clone(&self) -> (r: Self)
        ensures
            r@ == self@,
    {
        ActuationReceipt {
            id: self.id.clone(),
            timestamp: self.timestamp.clone(),
            updates_applied: self.updates_applied,
            update_descriptions: clone_strings(&self.update_descriptions),
            context: clone_opt_string(&self.context),
            rolled_back: self.rolled_back,
            error: clone_opt_string(&self.error),
        }
    }
}

/// The views of a sequence of receipts.
pub open spec fn receipts_view(v: Seq<ActuationReceipt>) -> Seq<ActuationReceiptView> {
    v.map_values(|r: ActuationReceipt| r@)
}

/// The number of updates applied over a sequence of receipts.
pub open spec fn applied_total(v: Seq<ActuationReceiptView>) -> nat
    decreases v.len(),
{
    if v.len() == 0 {
        0
    } else {
        applied_total(v.drop_last()) + v.last().updates_applied as nat
    }
}

/// A check of a state, as an actuator's invariant.
///
/// `ready` says on which states `check` may be called, and `answer` which
/// results it may give.
pub trait StateCheck<S> {
    /// `check` may be called on `s`.
    spec fn ready(&self, s: S) -> bool;

    /// `check` may answer `r` on `s`.
    spec fn answer(&self, s: S, r: Result<(), String>) -> bool;

    /// `Ok` iff the state is acceptable; the message says why it is not.
    fn check(&self, s: &S) -> (r: Result<(), String>)
        requires
            self.ready(*s),
        ensures
            self.answer(*s, r),
    ;
}

impl<S, F: Fn(&S) -> Result<(), String>> StateCheck<S> for F {
    open spec fn ready(&self, s: S) -> bool {
        call_requires(*self, (&s,))
    }

    open spec fn answer(&self, s: S, r: Result<(), String>) -> bool {
        call_ensures(*self, (&s,), r)
    }

    fn check(&self, s: &S) -> (r: Result<(), String>) {
        self(s)
    }
}

/// A state holder that changes its state only by committing bounded batches
/// of updates.
#[verifier::reject_recursive_types(S)]
pub struct BoundedActuator<S: Clone, U: StateUpdate<S>> {
    state: S,
    staged_batch: UpdateBatch<U>,
    limits: UpdateLimit,
    receipts: Vec<ActuationReceipt>,
    invariant: Option<Box<dyn StateCheck<S>>>,
}

impl<S: Clone, U: StateUpdate<S>> BoundedActuator<S, U> {
    /// The current state.
    pub closed spec fn current(&self) -> S {
        self.state
    }

    /// The staged updates, in order.
    pub closed spec fn staged(&self) -> Seq<U> {
        self.staged_batch.items()
    }

    /// The context of the staged batch.
    pub closed spec fn staged_context(&self) -> Option<Seq<char>> {
        self.staged_batch.ctx()
    }

    /// The most updates a batch may hold.
    pub closed spec fn limit(&self) -> usize {
        self.limits.max_updates_per_batch
    }

    /// The receipts so far, oldest first.
    pub closed spec fn history(&self) -> Seq<ActuationReceiptView> {
        receipts_view(self.receipts@)
    }

    /// `true` iff the actuator has an invariant.
    pub closed spec fn guarded(&self) -> bool {
        self.invariant is Some
    }

    /// The invariant answers `r` on state `s`: with no invariant, every
    /// state is accepted.
    pub closed spec fn answers(&self, s: S, r: Result<(), String>) -> bool {
        match self.invariant {
            Some(f) => f.answer(s, r),
            None => r is Ok,
        }
    }

    /// The invariant accepts `s`: it may answer `Ok` on it.
    pub open spec fn accepted(&self, s: S) -> bool {
        exists|x: Result<(), String>| x is Ok && #[trigger] self.answers(s, x)
    }

    /// The invariant can be asked about any state, and no more updates are
    /// staged than the limit allows.
    pub closed spec fn wf(&self) -> bool {
        &&& self.staged_batch.items().len() <= self.limits.max_updates_per_batch
        &&& match self.invariant {
            Some(f) => forall|s: S| f.ready(s),
            None => true,
        }
    }

    /// An actuator holding `initial_state`, with the given limits, nothing
    /// staged, no receipt and no invariant.
    pub fn new(initial_state: S, limits: UpdateLimit) -> (r: Self)
        ensures
            r.wf(),
            r.current() == initial_state,
            r.staged() == Seq::<U>::empty(),
            r.staged_context() is None,
            r.limit() == limits.max_updates_per_batch,
            r.history() == Seq::<ActuationReceiptView>::empty(),
            !r.guarded(),
    {
        let r = BoundedActuator {
            state: initial_state,
            staged_batch: UpdateBatch::new(),
            limits,
            receipts: Vec::new(),
            invariant: None,
        };
        assert(r.history() =~= Seq::<ActuationReceiptView>::empty());
        r
    }

    /// The actuator with `rule` as the invariant every commit must pass.
    pub fn with_invariant<F: Fn(&S) -> Result<(), String> + Send + Sync + 'static>(self, rule: F) -> (r: Self)
        requires
            self.wf(),
            forall|s: S| call_requires(rule, (&s,)),
        ensures
            r.wf(),
            r.guarded(),
            forall|s: S, x: Result<(), String>| r.answers(s, x) == call_ensures(rule, (&s,), x),
            r.current() == self.current(),
            r.staged() == self.staged(),
            r.staged_context() == self.staged_context(),
            r.limit() == self.limit(),
            r.history() == self.history(),
    {
        let mut a = self;
        let b: Box<dyn StateCheck<S>> = Box::new(rule);
        a.invariant = Some(b);
        a
    }

    /// Committing the staged batch, given `context`, may succeed with
    /// `receipt`, leaving `after`: every staged update applies in turn, the
    /// invariant accepts the result, and the receipt records them.
    pub open spec fn committed(&self, context: Option<Seq<char>>, after: S, receipt: ActuationReceiptView) -> bool {
        &&& self.staged().len() > 0
        &&& run(self.staged(), self.current()) == Some(after)
        &&& self.accepted(after)
        &&& receipt.updates_applied == self.staged().len()
        &&& receipt.update_descriptions.len() == self.staged().len()
        &&& receipt.context == (match context {
            Some(c) => Some(c),
            None => self.staged_context(),
        })
        &&& !receipt.rolled_back
        &&& receipt.error is None
    }

    /// Committing the staged batch may fail with `e`, leaving `after`:
    /// nothing was staged; or an update failed, or the invariant refused
    /// the result, and the state was restored from a copy.
    pub open spec fn failed_commit(&self, after: S, e: ActuationError) -> bool {
        match e {
            ActuationError::NoUpdatesStaged => self.staged().len() == 0 && after == self.current(),
            ActuationError::UpdateFailed { .. } => {
                &&& self.staged().len() > 0
                &&& run(self.staged(), self.current()) is None
                &&& cloned(self.current(), after)
            },
            ActuationError::InvariantViolation { reason } => {
                &&& self.staged().len() > 0
                &&& match run(self.staged(), self.current()) {
                    Some(t) => self.answers(t, Err(reason)),
                    None => false,
                }
                &&& cloned(self.current(), after)
            },
            _ => false,
        }
    }

    /// The current state.
    pub fn state(&self) -> (r: &S)
        ensures
            *r == self.current(),
    {
        &self.state
    }

    /// The limits.
    pub fn limits(&self) -> (r: &UpdateLimit)
        ensures
            r.max_updates_per_batch == self.limit(),
    {
        &self.limits
    }

    /// The receipts so far, oldest first.
    pub fn receipts(&self) -> (r: &[ActuationReceipt])
        ensures
            receipts_view(r@) == self.history(),
    {
        self.receipts.as_slice()
    }

    /// The number of staged updates.
    pub fn staged_count(&self) -> (r: usize)
        ensures
            r == self.staged().len(),
    {
        self.staged_batch.len()
    }

    /// Stages `update` for the next commit; refused when the batch is full.
    pub fn stage_update(&mut self, update: U) -> (r: Result<(), ActuationError>)
        requires
            old(self).wf(),
            old(self).staged().len() < usize::MAX,
        ensures
            final(self).wf(),
            final(self).current() == old(self).current(),
            final(self).staged_context() == old(self).staged_context(),
            final(self).limit() == old(self).limit(),
            final(self).history() == old(self).history(),
            final(self).guarded() == old(self).guarded(),
            forall|s: S, x: Result<(), String>| final(self).answers(s, x) == old(self).answers(s, x),
            match r {
                Ok(()) => old(self).staged().len() < old(self).limit()
                    && final(self).staged() == old(self).staged().push(update),
                Err(e) => old(self).staged().len() >= old(self).limit()
                    && final(self).staged() == old(self).staged()
                    && e == (ActuationError::UpdateLimitExceeded {
                        actual: (old(self).staged().len() + 1) as usize,
                        limit: old(self).limit(),
                    }),
            },
    {
        if self.staged_batch.len() >= self.limits.max_updates_per_batch {
            return Err(ActuationError::UpdateLimitExceeded {
                actual: self.staged_batch.len() + 1,
                limit: self.limits.max_updates_per_batch,
            });
        }
        self.staged_batch.add(update);
        Ok(())
    }

    /// Stages `updates` in order; refused, staging none, when they would not
    /// all fit in the batch.
    pub fn stage_updates(&mut self, updates: Vec<U>) -> (r: Result<(), ActuationError>)
        requires
            old(self).wf(),
            old(self).staged().len() + updates@.len() <= usize::MAX,
        ensures
            final(self).wf(),
            final(self).current() == old(self).current(),
            final(self).staged_context() == old(self).staged_context(),
            final(self).limit() == old(self).limit(),
            final(self).history() == old(self).history(),
            final(self).guarded() == old(self).guarded(),
            forall|s: S, x: Result<(), String>| final(self).answers(s, x) == old(self).answers(s, x),
            match r {
                Ok(()) => old(self).staged().len() + updates@.len() <= old(self).limit()
                    && final(self).staged() == old(self).staged() + updates@,
                Err(e) => old(self).staged().len() + updates@.len() > old(self).limit()
                    && final(self).staged() == old(self).staged()
                    && e == (ActuationError::UpdateLimitExceeded {
                        actual: (old(self).staged().len() + updates@.len()) as usize,
                        limit: old(self).limit(),
                    }),
            },
    {
        let new_total = self.staged_batch.len() + updates.len();
        if new_total > self.limits.max_updates_per_batch {
            return Err(ActuationError::UpdateLimitExceeded {
                actual: new_total,
                limit: self.limits.max_updates_per_batch,
            });
        }
        let ghost start = self.staged();
        let ghost items = updates@;
        let mut rest = updates;
        while rest.len() > 0
            invariant
                self.staged_batch.items() == start + items.take(items.len() - rest@.len()),
                rest@ == items.skip(items.len() - rest@.len()),
                rest@.len() <= items.len(),
                start.len() + items.len() <= self.limits.max_updates_per_batch,
                self.state == old(self).state,
                self.limits == old(self).limits,
                self.receipts == old(self).receipts,
                self.invariant == old(self).invariant,
                self.staged_batch.ctx() == old(self).staged_batch.ctx(),
            decreases rest@.len(),
        {
            let ghost k = items.len() - rest@.len();
            let u = rest.remove(0);
            assert(u == items[k]);
            self.staged_batch.add(u);
            assert(items.take(k + 1) =~= items.take(k).push(items[k]));
            assert(rest@ =~= items.skip(k + 1));
        }
        assert(items.take(items.len() as int) =~= items);
        Ok(())
    }

    /// Drops every staged update and the batch's context.
    pub fn clear_staged(&mut self)
        requires
            old(self).wf(),
        ensures
            final(self).wf(),
            final(self).current() == old(self).current(),
            final(self).staged() == Seq::<U>::empty(),
            final(self).staged_context() is None,
            final(self).limit() == old(self).limit(),
            final(self).history() == old(self).history(),
            final(self).guarded() == old(self).guarded(),
            forall|s: S, x: Result<(), String>| final(self).answers(s, x) == old(self).answers(s, x),
    {
        self.staged_batch = UpdateBatch::new();
    }

    /// Replaces the state, bypassing actuation, and drops what was staged.
    /// No receipt is written.
    pub fn reset_state(&mut self, new_state: S)
        requires
            old(self).wf(),
        ensures
            final(self).wf(),
            final(self).current() == new_state,
            final(self).staged() == Seq::<U>::empty(),
            final(self).staged_context() is None,
            final(self).limit() == old(self).limit(),
            final(self).history() == old(self).history(),
            final(self).guarded() == old(self).guarded(),
            forall|s: S, x: Result<(), String>| final(self).answers(s, x) == old(self).answers(s, x),
    {
        self.state = new_state;
        self.staged_batch = UpdateBatch::new();
    }

    /// Applies the staged updates in order and keeps the result where all
    /// succeed and the invariant accepts it; the state is otherwise restored
    /// from a copy taken before. A kept batch is recorded in a receipt and
    /// dropped; a refused one stays staged.
    pub fn commit(&mut self, context: Option<String>) -> (r: Result<ActuationReceipt, ActuationError>)
        requires
            old(self).wf(),
        ensures
            final(self).wf(),
            final(self).limit() == old(self).limit(),
            final(self).guarded() == old(self).guarded(),
            forall|s: S, x: Result<(), String>| final(self).answers(s, x) == old(self).answers(s, x),
            match r {
                Ok(receipt) => {
                    &&& old(self).committed(opt_str(context), final(self).current(), receipt@)
                    &&& final(self).history() == old(self).history().push(receipt@)
                    &&& final(self).staged() == Seq::<U>::empty()
                    &&& final(self).staged_context() is None
                },
                Err(e) => {
                    &&& old(self).failed_commit(final(self).current(), e)
                    &&& final(self).history() == old(self).history()
                    &&& final(self).staged() == old(self).staged()
                    &&& final(self).staged_context() == old(self).staged_context()
                },
            },
    {
        if self.staged_batch.len() == 0 {
            return Err(ActuationError::NoUpdatesStaged);
        }
        let checkpoint = self.state.clone();
        let ghost start = self.state;
        let ghost items = self.staged_batch.items();
        let mut descriptions: Vec<String> = Vec::new();
        let n = self.staged_batch.updates.len();
        let mut i: usize = 0;
        while i < n
            invariant
                n == items.len(),
                i <= n,
                items == self.staged_batch.updates@,
                run(items.take(i as int), start) == Some(self.state),
                descriptions@.len() == i,
                start == old(self).state,
                old(self).wf(),
                cloned(start, checkpoint),
                self.staged_batch == old(self).staged_batch,
                self.limits == old(self).limits,
                self.receipts == old(self).receipts,
                self.invariant == old(self).invariant,
            decreases n - i,
        {
            let u = &self.staged_batch.updates[i];
            descriptions.push(u.description());
            assert(items.take(i + 1).drop_last() =~= items.take(i as int));
            match u.apply(&mut self.state) {
                Ok(()) => {},
                Err(message) => {
                    proof {
                        lemma_run_fails_on(items, start, i + 1);
                    }
                    self.state = checkpoint;
                    return Err(ActuationError::UpdateFailed { message });
                },
            }
            i = i + 1;
        }
        assert(items.take(n as int) =~= items);
        match &self.invariant {
            Some(f) => {
                let verdict = f.check(&self.state);
                match verdict {
                    Ok(()) => {
                        assert(old(self).answers(self.state, verdict));
                        assert(old(self).accepted(self.state));
                    },
                    Err(reason) => {
                        self.state = checkpoint;
                        return Err(ActuationError::InvariantViolation { reason });
                    },
                }
            },
            None => {
                assert(old(self).answers(self.state, Ok::<(), String>(())));
                assert(old(self).accepted(self.state));
            },
        }
        let ctx = match context {
            Some(c) => Some(c),
            None => clone_opt_string(&self.staged_batch.context),
        };
        let receipt = ActuationReceipt {
            id: new_uuid(),
            timestamp: now_rfc3339(),
            updates_applied: n,
            update_descriptions: descriptions,
            context: ctx,
            rolled_back: false,
            error: None,
        };
        let ghost before = self.receipts@;
        self.receipts.push(receipt.clone());
        assert(receipts_view(self.receipts@) =~= receipts_view(before).push(receipt@));
        self.staged_batch = UpdateBatch::new();
        Ok(receipt)
    }

    /// Commits as `commit` does; where that fails, records the failure in a
    /// rolled-back receipt, drops the staged batch, and returns the receipt
    /// as the error.
    pub fn try_commit(&mut self, context: Option<String>) -> (r: Result<ActuationReceipt, ActuationReceipt>)
        requires
            old(self).wf(),
        ensures
            final(self).wf(),
            final(self).limit() == old(self).limit(),
            final(self).guarded() == old(self).guarded(),
            forall|s: S, x: Result<(), String>| final(self).answers(s, x) == old(self).answers(s, x),
            final(self).staged() == Seq::<U>::empty(),
            final(self).staged_context() is None,
            match r {
                Ok(receipt) => {
                    &&& old(self).committed(opt_str(context), final(self).current(), receipt@)
                    &&& final(self).history() == old(self).history().push(receipt@)
                },
                Err(receipt) => {
                    &&& exists|e: ActuationError| #[trigger] old(self).failed_commit(final(self).current(), e)
                        && receipt@.error == Some(actuation_error_text(e))
                    &&& receipt@.updates_applied == 0
                    &&& receipt@.update_descriptions.len() == old(self).staged().len()
                    &&& receipt@.context == opt_str(context)
                    &&& receipt@.rolled_back
                    &&& final(self).history() == old(self).history().push(receipt@)
                },
            },
    {
        let kept = clone_opt_string(&context);
        match self.commit(context) {
            Ok(receipt) => Ok(receipt),
            Err(e) => {
                let mut descriptions: Vec<String> = Vec::new();
                let mut i: usize = 0;
                while i < self.staged_batch.updates.len()
                    invariant
                        i <= self.staged_batch.updates@.len(),
                        descriptions@.len() == i,
                    decreases self.staged_batch.updates@.len() - i,
                {
                    descriptions.push(self.staged_batch.updates[i].description());
                    i = i + 1;
                }
                let receipt = ActuationReceipt {
                    id: new_uuid(),
                    timestamp: now_rfc3339(),
                    updates_applied: 0,
                    update_descriptions: descriptions,
                    context: kept,
                    rolled_back: true,
                    error: Some(e.message()),
                };
                let ghost before = self.receipts@;
                self.receipts.push(receipt.clone());
                assert(receipts_view(self.receipts@) =~= receipts_view(before).push(receipt@));
                self.staged_batch = UpdateBatch::new();
                assert(old(self).failed_commit(self.current(), e));
                Err(receipt)
            },
        }
    }

    /// The number of updates ever committed.
    pub fn total_updates_committed(&self) -> (r: usize)
        requires
            applied_total(self.history()) <= usize::MAX,
        ensures
            r == applied_total(self.history()),
    {
        let mut total: usize = 0;
        let mut i: usize = 0;
        while i < self.receipts.len()
            invariant
                i <= self.receipts@.len(),
                total == applied_total(receipts_view(self.receipts@).take(i as int)),
                applied_total(receipts_view(self.receipts@)) <= usize::MAX,
            decreases self.receipts@.len() - i,
        {
            let ghost v = receipts_view(self.receipts@);
            assert(v.take(i + 1).drop_last() =~= v.take(i as int));
            proof {
                lemma_applied_total_prefix(v, i + 1);
            }
            total = total + self.receipts[i].updates_applied;
            i = i + 1;
        }
        assert(receipts_view(self.receipts@).take(i as int) =~= receipts_view(self.receipts@));
        total
    }
}

/// The total over a prefix is at most the total.
pub proof fn lemma_applied_total_prefix(v: Seq<ActuationReceiptView>, k: int)
    requires
        0 <= k <= v.len(),
    ensures
        applied_total(v.take(k)) <= applied_total(v),
    decreases v.len(),
{
    if k < v.len() {
        assert(v.drop_last().take(k) =~= v.take(k));
        lemma_applied_total_prefix(v.drop_last(), k);
    } else {
        assert(v.take(k) =~= v);
    }
}

} // verus!
