//! Guards against re-entered operations.
//!
//! Every user operation waits on a ledger call, and while it waits another
//! call of the same user may come in.  A guard is a mark in a table, keyed by
//! the caller and the name of the operation: a second call under the same key
//! is turned away until the first is done or has grown stale.  The table also
//! caps how many operations are under way at once.

use vstd::prelude::*;
use crate::state::State;
use crate::state::Touched;
use crate::state::nothing;
use crate::vault::Principal;

verus! {

/// How many operations may be under way at once.
pub const MAX_CONCURRENT: usize = 100;

/// A guard older than this is dropped whenever a guard is asked for.
pub const GUARD_TIMEOUT_NANOS: u64 = 300_000_000_000;

/// A guard older than this no longer blocks a new one for the same key.
pub const GUARD_STALE_NANOS: u64 = 150_000_000_000;

/// Where a guarded operation stands.
#[derive(Debug, Clone, Copy, PartialEq, Eq, Structural)]
pub enum OperationState {
    InProgress,
    Completed,
    Failed,
}

/// Why no guard was given.
#[derive(Debug, Clone, Copy, PartialEq, Eq, Structural)]
pub enum GuardError {
    AlreadyProcessing,
    TooManyConcurrentRequests,
    StaleOperation,
}

/// One guard in the table.
#[derive(Debug)]
pub struct GuardEntry {
    pub principal: Principal,
    pub operation: String,
    pub created_at: u64,
    pub state: OperationState,
}

/// The guards that are held.
#[derive(Debug)]
pub struct GuardTable {
    pub entries: Vec<GuardEntry>,
}

/// The handle of a guard that was given.
#[derive(Debug)]
#[must_use]
pub struct GuardPrincipal {
    pub principal: Principal,
    pub created_at: u64,
    pub operation: String,
}

/// The nanoseconds from `since` to `now`; none if the clock went back.
pub open spec fn age(now: u64, since: u64) -> int {
    if now >= since {
        now - since
    } else {
        0
    }
}

/// A guard as a plain value.
pub struct GuardView {
    pub principal: Principal,
    pub operation: Seq<char>,
    pub created_at: u64,
    pub state: OperationState,
}

impl View for GuardEntry {
    type V = GuardView;

    open spec fn view(&self) -> GuardView {
        GuardView {
            principal: self.principal,
            operation: self.operation@,
            created_at: self.created_at,
            state: self.state,
        }
    }
}

/// The guards as plain values, in their order.
pub open spec fn views(entries: Seq<GuardEntry>) -> Seq<GuardView> {
    Seq::new(entries.len(), |i: int| entries[i]@)
}

impl View for GuardTable {
    type V = Seq<GuardView>;

    open spec fn view(&self) -> Seq<GuardView> {
        views(self.entries@)
    }
}

impl GuardView {
    /// The guard is for this caller's operation of this name.
    pub open spec fn has_key(self, principal: Principal, operation: Seq<char>) -> bool {
        self.principal == principal && self.operation == operation
    }

    /// The guard is dropped when a guard is next asked for.
    pub open spec fn expired(self, now: u64) -> bool {
        age(now, self.created_at) > GUARD_TIMEOUT_NANOS || self.state == OperationState::Failed
    }

    /// The guard no longer blocks a new guard under its key.
    pub open spec fn stale(self, now: u64) -> bool {
        age(now, self.created_at) > GUARD_STALE_NANOS
    }
}

/// No two guards have one key.
pub open spec fn keys_distinct(guards: Seq<GuardView>) -> bool {
    forall|i: int, j: int|
        0 <= i < j < guards.len() ==> !(#[trigger] guards[i]).has_key(
            (#[trigger] guards[j]).principal,
            guards[j].operation,
        )
}

/// A guard with this key is held.
pub open spec fn is_guarded(guards: Seq<GuardView>, principal: Principal, operation: Seq<char>) -> bool {
    exists|i: int| 0 <= i < guards.len() && (#[trigger] guards[i]).has_key(principal, operation)
}

/// Where the guard with this key stands, if it is held.
pub open spec fn guard_position(
    guards: Seq<GuardView>,
    principal: Principal,
    operation: Seq<char>,
) -> int {
    choose|i: int| 0 <= i < guards.len() && (#[trigger] guards[i]).has_key(principal, operation)
}

/// The guards that are not dropped at `now`, in their order.
pub open spec fn surviving(guards: Seq<GuardView>, now: u64) -> Seq<GuardView>
    decreases guards.len(),
{
    if guards.len() == 0 {
        guards
    } else if guards.last().expired(now) {
        surviving(guards.drop_last(), now)
    } else {
        surviving(guards.drop_last(), now).push(guards.last())
    }
}

/// The guards without the one under this key.
pub open spec fn released(guards: Seq<GuardView>, principal: Principal, operation: Seq<char>) -> Seq<
    GuardView,
> {
    if is_guarded(guards, principal, operation) {
        guards.remove(guard_position(guards, principal, operation))
    } else {
        guards
    }
}

/// The guards with the state of the one under this key set.
pub open spec fn marked(
    guards: Seq<GuardView>,
    principal: Principal,
    operation: Seq<char>,
    state: OperationState,
) -> Seq<GuardView> {
    if is_guarded(guards, principal, operation) {
        let i = guard_position(guards, principal, operation);
        guards.update(
            i,
            GuardView {
                principal: guards[i].principal,
                operation: guards[i].operation,
                created_at: guards[i].created_at,
                state,
            },
        )
    } else {
        guards
    }
}

/// Whether a guard is given: not while a guard under the same key survives
/// that is not stale, and not while the table is full.
pub open spec fn acquire_verdict(
    guards: Seq<GuardView>,
    principal: Principal,
    operation: Seq<char>,
    now: u64,
) -> Result<(), GuardError> {
    let kept = surviving(guards, now);
    if is_guarded(kept, principal, operation) && !kept[guard_position(
        kept,
        principal,
        operation,
    )].stale(now) {
        Err(GuardError::AlreadyProcessing)
    } else if released(kept, principal, operation).len() >= MAX_CONCURRENT {
        Err(GuardError::TooManyConcurrentRequests)
    } else {
        Ok(())
    }
}

/// What asking for a guard leaves in the table.
///
/// First every expired guard goes.  A guard under the same key that is not
/// stale then turns the request away; a stale one goes too.  A full table
/// turns the request away as well.  Otherwise the new guard is added at the
/// end, in progress.
pub open spec fn acquire_outcome(
    guards: Seq<GuardView>,
    principal: Principal,
    operation: Seq<char>,
    now: u64,
) -> Seq<GuardView> {
    let kept = surviving(guards, now);
    match acquire_verdict(guards, principal, operation, now) {
        Err(GuardError::AlreadyProcessing) => kept,
        Err(_) => released(kept, principal, operation),
        Ok(_) => released(kept, principal, operation).push(
            GuardView { principal, operation, created_at: now, state: OperationState::InProgress },
        ),
    }
}

/// With distinct keys, the guard at a place is the one its key leads to.
pub proof fn lemma_guard_found(guards: Seq<GuardView>, i: int)
    requires
        keys_distinct(guards),
        0 <= i < guards.len(),
    ensures
        is_guarded(guards, guards[i].principal, guards[i].operation),
        guard_position(guards, guards[i].principal, guards[i].operation) == i,
{
    let p = guard_position(guards, guards[i].principal, guards[i].operation);
    assert(guards[i].has_key(guards[i].principal, guards[i].operation));
    if p < i {
        assert(!guards[p].has_key(guards[i].principal, guards[i].operation));
    } else if i < p {
        assert(!guards[i].has_key(guards[p].principal, guards[p].operation));
    }
}

/// What survives was there before, in the same order, and is not expired.
pub proof fn lemma_surviving(guards: Seq<GuardView>, now: u64)
    ensures
        surviving(guards, now).len() <= guards.len(),
        forall|k: int|
            0 <= k < surviving(guards, now).len() ==> !(#[trigger] surviving(
                guards,
                now,
            )[k]).expired(now),
        keys_distinct(guards) ==> keys_distinct(surviving(guards, now)),
        forall|k: int|
            0 <= k < surviving(guards, now).len() ==> guards.contains(
                #[trigger] surviving(guards, now)[k],
            ),
    decreases guards.len(),
{
    let out = surviving(guards, now);
    if guards.len() > 0 {
        let rest = guards.drop_last();
        lemma_surviving(rest, now);
        let sub = surviving(rest, now);
        assert forall|k: int| 0 <= k < out.len() implies guards.contains(#[trigger] out[k]) by {
            if k < sub.len() {
                assert(rest.contains(sub[k]));
                let m = choose|m: int| 0 <= m < rest.len() && rest[m] == sub[k];
                assert(guards[m] == out[k]);
            } else {
                assert(guards[guards.len() - 1] == out[k]);
            }
        }
        if keys_distinct(guards) {
            assert(keys_distinct(rest)) by {
                assert forall|i: int, j: int| 0 <= i < j < rest.len() implies !(
                #[trigger] rest[i]).has_key((#[trigger] rest[j]).principal, rest[j].operation) by {
                    assert(!guards[i].has_key(guards[j].principal, guards[j].operation));
                }
            }
            if !guards.last().expired(now) {
                assert forall|i: int, j: int| 0 <= i < j < out.len() implies !(
                #[trigger] out[i]).has_key((#[trigger] out[j]).principal, out[j].operation) by {
                    if j < sub.len() {
                        assert(!sub[i].has_key(sub[j].principal, sub[j].operation));
                    } else {
                        assert(rest.contains(sub[i]));
                        let m = choose|m: int| 0 <= m < rest.len() && rest[m] == sub[i];
                        assert(!guards[m].has_key(
                            guards[guards.len() - 1].principal,
                            guards[guards.len() - 1].operation,
                        ));
                    }
                }
            }
        }
    }
}

/// Taking a guard out leaves the keys distinct.
pub proof fn lemma_remove_keeps_distinct(guards: Seq<GuardView>, i: int)
    requires
        keys_distinct(guards),
        0 <= i < guards.len(),
    ensures
        keys_distinct(guards.remove(i)),
{
    let after = guards.remove(i);
    assert forall|a: int, b: int| 0 <= a < b < after.len() implies !(#[trigger] after[a]).has_key(
        (#[trigger] after[b]).principal,
        after[b].operation,
    ) by {
        let oa = if a < i { a } else { a + 1 };
        let ob = if b < i { b } else { b + 1 };
        assert(!guards[oa].has_key(guards[ob].principal, guards[ob].operation));
    }
}

/// After the guard under a key is taken out, none is held under that key.
pub proof fn lemma_released_unguarded(
    guards: Seq<GuardView>,
    principal: Principal,
    operation: Seq<char>,
)
    requires
        keys_distinct(guards),
    ensures
        !is_guarded(released(guards, principal, operation), principal, operation),
{
    let after = released(guards, principal, operation);
    if is_guarded(guards, principal, operation) {
        let i = guard_position(guards, principal, operation);
        if is_guarded(after, principal, operation) {
            let k = guard_position(after, principal, operation);
            let ok = if k < i { k } else { k + 1 };
            assert(guards[ok].has_key(principal, operation));
            if ok < i {
                assert(!guards[ok].has_key(guards[i].principal, guards[i].operation));
            } else {
                assert(!guards[i].has_key(guards[ok].principal, guards[ok].operation));
            }
        }
    }
}

impl GuardTable {
    /// One guard for each key, and no more guards than may be held.
    pub open spec fn wf(&self) -> bool {
        &&& keys_distinct(self@)
        &&& self@.len() <= MAX_CONCURRENT
    }

    /// An empty table.
    pub fn new() -> (r: GuardTable)
        ensures
            r.wf(),
            r@.len() == 0,
            r.entries@.len() == 0,
    {
        GuardTable { entries: Vec::new() }
    }

    /// How many guards are held.
    pub fn len(&self) -> (r: usize)
        ensures
            r == self@.len(),
    {
        self.entries.len()
    }

    /// Where the guard under this key stands.
    fn find(&self, principal: Principal, operation: &String) -> (r: Option<usize>)
        requires
            keys_distinct(self@),
        ensures
            r is Some <==> is_guarded(self@, principal, operation@),
            r is Some ==> r->0 == guard_position(self@, principal, operation@),
            r is Some ==> r->0 < self@.len(),
    {
        let mut i: usize = 0;
        while i < self.entries.len()
            invariant
                i <= self@.len(),
                self@.len() == self.entries@.len(),
                keys_distinct(self@),
                forall|k: int| 0 <= k < i ==> !(#[trigger] self@[k]).has_key(principal, operation@),
            decreases self@.len() - i,
        {
            if self.entries[i].principal == principal && self.entries[i].operation == *operation {
                proof {
                    assert(self@[i as int] == self.entries@[i as int]@);
                    lemma_guard_found(self@, i as int);
                }
                return Some(i);
            }
            proof {
                assert(self@[i as int] == self.entries@[i as int]@);
            }
            i = i + 1;
        }
        None
    }

    /// Drops every expired guard.
    fn reclaim(&mut self, now: u64)
        requires
            old(self).wf(),
        ensures
            final(self).wf(),
            final(self)@ == surviving(old(self)@, now),
    {
        let ghost before = self@;
        let mut kept: Vec<GuardEntry> = Vec::new();
        let mut i: usize = 0;
        while i < self.entries.len()
            invariant
                i <= self.entries@.len(),
                self@ == before,
                before.len() == self.entries@.len(),
                views(kept@) == surviving(before.take(i as int), now),
            decreases self.entries@.len() - i,
        {
            proof {
                assert(before.take(i as int + 1).drop_last() =~= before.take(i as int));
                assert(before[i as int] == self.entries@[i as int]@);
            }
            let created_at = self.entries[i].created_at;
            let elapsed = if now >= created_at {
                now - created_at
            } else {
                0
            };
            let failed = match self.entries[i].state {
                OperationState::Failed => true,
                _ => false,
            };
            if !(elapsed > GUARD_TIMEOUT_NANOS || failed) {
                let ghost earlier = kept@;
                kept.push(
                    GuardEntry {
                        principal: self.entries[i].principal,
                        operation: self.entries[i].operation.clone(),
                        created_at,
                        state: self.entries[i].state,
                    },
                );
                proof {
                    assert(views(kept@) =~= views(earlier).push(before[i as int]));
                }
            }
            i = i + 1;
        }
        proof {
            assert(before.take(i as int) =~= before);
            lemma_surviving(before, now);
        }
        self.entries = kept;
    }

    /// Asks for a guard for `operation_name` on behalf of `principal`: see
    /// [`acquire_verdict`] and [`acquire_outcome`].
    pub fn acquire(&mut self, principal: Principal, operation_name: &str, now: u64) -> (r: Result<
        GuardPrincipal,
        GuardError,
    >)
        requires
            old(self).wf(),
        ensures
            final(self).wf(),
            final(self)@ == acquire_outcome(old(self)@, principal, operation_name@, now),
            match r {
                Ok(guard) => acquire_verdict(old(self)@, principal, operation_name@, now) is Ok
                    && guard.principal == principal && guard.operation@ == operation_name@
                    && guard.created_at == now,
                Err(e) => acquire_verdict(old(self)@, principal, operation_name@, now)
                    == Err::<(), GuardError>(e),
            },
            r is Ok ==> is_guarded(final(self)@, principal, operation_name@),
    {
        let operation = operation_name.to_owned();
        let ghost before = self@;
        self.reclaim(now);
        let ghost kept = self@;
        match self.find(principal, &operation) {
            Some(i) => {
                let created_at = self.entries[i].created_at;
                proof {
                    assert(kept[i as int] == self.entries@[i as int]@);
                }
                let elapsed = if now >= created_at {
                    now - created_at
                } else {
                    0
                };
                if elapsed > GUARD_STALE_NANOS {
                    let _ = self.entries.remove(i);
                    proof {
                        lemma_remove_keeps_distinct(kept, i as int);
                        assert(self@ =~= kept.remove(i as int));
                    }
                } else {
                    return Err(GuardError::AlreadyProcessing);
                }
            },
            None => {},
        }
        let ghost free = self@;
        assert(free == released(kept, principal, operation@));
        if self.entries.len() >= MAX_CONCURRENT {
            return Err(GuardError::TooManyConcurrentRequests);
        }
        let handle_operation = operation.clone();
        let ghost guard = GuardView {
            principal,
            operation: operation@,
            created_at: now,
            state: OperationState::InProgress,
        };
        proof {
            lemma_released_unguarded(kept, principal, operation@);
        }
        self.entries.push(
            GuardEntry { principal, operation, created_at: now, state: OperationState::InProgress },
        );
        proof {
            let after = self@;
            assert(after =~= free.push(guard));
            assert(after[after.len() - 1].has_key(principal, operation_name@));
            assert(keys_distinct(after)) by {
                assert forall|a: int, b: int| 0 <= a < b < after.len() implies !(
                #[trigger] after[a]).has_key((#[trigger] after[b]).principal, after[b].operation) by {
                    if b < free.len() {
                        assert(!free[a].has_key(free[b].principal, free[b].operation));
                    } else {
                        assert(!free[a].has_key(principal, guard.operation));
                    }
                }
            }
        }
        Ok(GuardPrincipal { principal, created_at: now, operation: handle_operation })
    }

    /// Sets the state of the guard under this key, if there is one.
    pub fn mark(&mut self, principal: Principal, operation: &String, state: OperationState)
        requires
            old(self).wf(),
        ensures
            final(self).wf(),
            final(self)@ == marked(old(self)@, principal, operation@, state),
    {
        let ghost before = self@;
        match self.find(principal, operation) {
            Some(i) => {
                proof {
                    assert(before[i as int] == self.entries@[i as int]@);
                }
                let entry = GuardEntry {
                    principal: self.entries[i].principal,
                    operation: self.entries[i].operation.clone(),
                    created_at: self.entries[i].created_at,
                    state,
                };
                self.entries.set(i, entry);
                proof {
                    let after = self@;
                    assert(after =~= marked(before, principal, operation@, state));
                    assert forall|a: int, b: int| 0 <= a < b < after.len() implies !(
                    #[trigger] after[a]).has_key(
                        (#[trigger] after[b]).principal,
                        after[b].operation,
                    ) by {
                        assert(!before[a].has_key(before[b].principal, before[b].operation));
                    }
                }
            },
            None => {},
        }
    }

    /// Takes out the guard under this key, if there is one.
    pub fn release(&mut self, principal: Principal, operation: &String)
        requires
            old(self).wf(),
        ensures
            final(self).wf(),
            final(self)@ == released(old(self)@, principal, operation@),
            !is_guarded(final(self)@, principal, operation@),
    {
        let ghost before = self@;
        match self.find(principal, operation) {
            Some(i) => {
                let _ = self.entries.remove(i);
                proof {
                    assert(self@ =~= before.remove(i as int));
                    lemma_remove_keeps_distinct(before, i as int);
                    lemma_released_unguarded(before, principal, operation@);
                }
            },
            None => {},
        }
    }

    /// The state of the guard under this key, if there is one.
    pub fn state_of(&self, principal: Principal, operation: &String) -> (r: Option<OperationState>)
        requires
            self.wf(),
        ensures
            r == if is_guarded(self@, principal, operation@) {
                Some(self@[guard_position(self@, principal, operation@)].state)
            } else {
                None
            },
    {
        match self.find(principal, operation) {
            Some(i) => {
                proof {
                    assert(self@[i as int] == self.entries@[i as int]@);
                }
                Some(self.entries[i].state)
            },
            None => None,
        }
    }
}

impl GuardPrincipal {
    /// Asks for a guard for `operation_name` on behalf of `principal`: see
    /// [`acquire_verdict`] and [`acquire_outcome`].
    pub fn new(state: &mut State, principal: Principal, operation_name: &str, now: u64) -> (r:
        Result<GuardPrincipal, GuardError>)
        requires
            old(state).wf(),
        ensures
            final(state).wf(),
            final(state).is_timer_running == old(state).is_timer_running,
            final(state).is_fetching_rate == old(state).is_fetching_rate,
            final(state).differs_only_in(old(state), (Touched { guards: true, ..nothing() })),
            final(state).operation_guards@ == acquire_outcome(
                old(state).operation_guards@,
                principal,
                operation_name@,
                now,
            ),
            match r {
                Ok(guard) => acquire_verdict(
                    old(state).operation_guards@,
                    principal,
                    operation_name@,
                    now,
                ) is Ok && guard.principal == principal && guard.operation@ == operation_name@
                    && guard.created_at == now,
                Err(e) => acquire_verdict(
                    old(state).operation_guards@,
                    principal,
                    operation_name@,
                    now,
                ) == Err::<(), GuardError>(e),
            },
            r is Ok ==> is_guarded(final(state).operation_guards@, principal, operation_name@),
    {
        state.operation_guards.acquire(principal, operation_name, now)
    }

    /// Marks the operation as done and gives the guard back: its entry goes.
    pub fn complete(self, state: &mut State)
        requires
            old(state).wf(),
        ensures
            final(state).wf(),
            final(state).operation_guards@ == released(
                marked(
                    old(state).operation_guards@,
                    self.principal,
                    self.operation@,
                    OperationState::Completed,
                ),
                self.principal,
                self.operation@,
            ),
            !is_guarded(final(state).operation_guards@, self.principal, self.operation@),
            final(state).is_timer_running == old(state).is_timer_running,
            final(state).is_fetching_rate == old(state).is_fetching_rate,
            final(state).differs_only_in(old(state), (Touched { guards: true, ..nothing() })),
    {
        state.operation_guards.mark(self.principal, &self.operation, OperationState::Completed);
        state.operation_guards.release(self.principal, &self.operation);
    }

    /// Marks the operation as failed and gives the guard back.  The entry
    /// stays until a guard is next asked for.
    pub fn fail(self, state: &mut State)
        requires
            old(state).wf(),
        ensures
            final(state).wf(),
            final(state).operation_guards@ == marked(
                old(state).operation_guards@,
                self.principal,
                self.operation@,
                OperationState::Failed,
            ),
            final(state).is_timer_running == old(state).is_timer_running,
            final(state).is_fetching_rate == old(state).is_fetching_rate,
            final(state).differs_only_in(old(state), (Touched { guards: true, ..nothing() })),
    {
        state.operation_guards.mark(self.principal, &self.operation, OperationState::Failed);
    }

    /// Gives the guard back without a word on how the operation ended.  The
    /// entry goes only where the operation was marked as done; an entry that
    /// is in progress or has failed stays, and is dropped when it expires.
    pub fn release(self, state: &mut State)
        requires
            old(state).wf(),
        ensures
            final(state).wf(),
            final(state).operation_guards@ == if is_guarded(
                old(state).operation_guards@,
                self.principal,
                self.operation@,
            ) && old(state).operation_guards@[guard_position(
                old(state).operation_guards@,
                self.principal,
                self.operation@,
            )].state == OperationState::Completed {
                released(old(state).operation_guards@, self.principal, self.operation@)
            } else {
                old(state).operation_guards@
            },
            final(state).is_timer_running == old(state).is_timer_running,
            final(state).is_fetching_rate == old(state).is_fetching_rate,
            final(state).differs_only_in(old(state), (Touched { guards: true, ..nothing() })),
    {
        match state.operation_guards.state_of(self.principal, &self.operation) {
            Some(OperationState::Completed) => {
                state.operation_guards.release(self.principal, &self.operation);
            },
            _ => {},
        }
    }
}

/// The mark that the timer which sends the waiting transfers is at work.
#[derive(Debug)]
#[must_use]
pub struct TimerLogicGuard(());

impl TimerLogicGuard {
    /// Takes the mark, unless it is taken.
    pub fn new(state: &mut State) -> (r: Option<TimerLogicGuard>)
        ensures
            r is Some <==> !old(state).is_timer_running,
            final(state).is_timer_running,
            final(state).is_fetching_rate == old(state).is_fetching_rate,
            final(state).operation_guards.entries@ == old(state).operation_guards.entries@,
            final(state).differs_only_in(old(state), (Touched { guards: true, ..nothing() })),
            old(state).wf() ==> final(state).wf(),
    {
        if state.is_timer_running {
            return None;
        }
        state.is_timer_running = true;
        Some(TimerLogicGuard(()))
    }

    /// Gives the mark back.
    pub fn release(self, state: &mut State)
        ensures
            !final(state).is_timer_running,
            final(state).is_fetching_rate == old(state).is_fetching_rate,
            final(state).operation_guards.entries@ == old(state).operation_guards.entries@,
            final(state).differs_only_in(old(state), (Touched { guards: true, ..nothing() })),
            old(state).wf() ==> final(state).wf(),
    {
        state.is_timer_running = false;
    }
}

/// The mark that the price is being fetched.
#[derive(Debug)]
#[must_use]
pub struct FetchXrcGuard(());

impl FetchXrcGuard {
    /// Takes the mark, unless it is taken.
    pub fn new(state: &mut State) -> (r: Option<FetchXrcGuard>)
        ensures
            r is Some <==> !old(state).is_fetching_rate,
            final(state).is_fetching_rate,
            final(state).is_timer_running == old(state).is_timer_running,
            final(state).operation_guards.entries@ == old(state).operation_guards.entries@,
            final(state).differs_only_in(old(state), (Touched { guards: true, ..nothing() })),
            old(state).wf() ==> final(state).wf(),
    {
        if state.is_fetching_rate {
            return None;
        }
        state.is_fetching_rate = true;
        Some(FetchXrcGuard(()))
    }

    /// Gives the mark back.
    pub fn release(self, state: &mut State)
        ensures
            !final(state).is_fetching_rate,
            final(state).is_timer_running == old(state).is_timer_running,
            final(state).operation_guards.entries@ == old(state).operation_guards.entries@,
            final(state).differs_only_in(old(state), (Touched { guards: true, ..nothing() })),
            old(state).wf() ==> final(state).wf(),
    {
        state.is_fetching_rate = false;
    }
}

} // verus!
