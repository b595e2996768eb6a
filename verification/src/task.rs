//! The life of one task: its scheduling state, shared between the wakers and
//! the thread that polls it, and its reference count.

use vstd::prelude::*;

verus! {

/// State bit: the task is queued or being polled.
pub const SCHEDULED: u8 = 1;

/// State bit: the task was woken while it was being polled.
pub const NOTIFIED: u8 = 2;

/// Which thread runs a task, by the code the runtime stores for it.
#[derive(Clone, Copy, PartialEq, Eq, Structural, Debug)]
pub enum TaskKind {
    /// Runs on the thread that called `block_on`.
    Local,
    /// Runs on the worker threads.
    Shared,
    /// The future handed to `block_on`; the runtime returns when it ends.
    Root,
}

impl TaskKind {
    /// The code stored in a task for its kind.
    pub fn code(self) -> (c: u8)
        ensures
            c == (match self {
                TaskKind::Local => 0u8,
                TaskKind::Shared => 1u8,
                TaskKind::Root => 255u8,
            }),
    {
        match self {
            TaskKind::Local => 0,
            TaskKind::Shared => 1,
            TaskKind::Root => u8::MAX,
        }
    }
}

/// What a waker does with the task it wakes.
#[derive(Clone, Copy, PartialEq, Eq, Structural, Debug)]
pub enum WakeAction {
    /// Push the task onto its ring and rouse a thread.
    Enqueue,
    /// Nothing more: the task is queued or running, and will be polled again.
    AlreadyScheduled,
}

/// What the polling thread does after a poll returned `Pending`.
#[derive(Clone, Copy, PartialEq, Eq, Structural, Debug)]
pub enum PendingAction {
    /// Poll again at once: a wake came in during the poll.
    Repoll,
    /// Put the future back and leave the task idle until a waker enqueues it.
    Park,
}

/// The state after a wake, and what the waker must do.
pub open spec fn wake_spec(state: u8) -> (u8, WakeAction) {
    if state % 2 == 1 {
        (3u8, WakeAction::AlreadyScheduled)
    } else {
        (1u8, WakeAction::Enqueue)
    }
}

/// The state after a poll returned `Pending`, and what the poller does.
pub open spec fn pending_spec(state: u8) -> (u8, PendingAction) {
    if (state / 2) % 2 == 1 {
        ((state % 2) as u8, PendingAction::Repoll)
    } else {
        (0u8, PendingAction::Park)
    }
}

proof fn lemma_state_bits(state: u8)
    by (bit_vector)
    ensures
        2u8 & state == state & 2u8,
        (state & 1u8 == 1u8) == (state % 2 == 1),
        (state & 2u8 == 2u8) == ((state / 2) % 2 == 1),
        state & 1u8 == state % 2,
{
}

/// A waker's step on the task state: a task that is already scheduled gets
/// the notified bit; an idle one becomes scheduled and must be enqueued.
pub fn wake_transition(state: u8) -> (r: (u8, WakeAction))
    ensures
        r == wake_spec(state),
{
    proof {
        lemma_state_bits(state);
    }
    if (state & 1) == 1 {
        (3, WakeAction::AlreadyScheduled)
    } else {
        (1, WakeAction::Enqueue)
    }
}

/// The poller's step on the task state after `Pending`: a notified task
/// drops the notified bit and is polled again; otherwise it goes idle.
pub fn pending_transition(state: u8) -> (r: (u8, PendingAction))
    ensures
        r == pending_spec(state),
{
    proof {
        lemma_state_bits(state);
    }
    if (2 & state) == 2 {
        (state & 1, PendingAction::Repoll)
    } else {
        (0, PendingAction::Park)
    }
}

/// What dropping one reference leaves.
#[derive(Clone, Copy, PartialEq, Eq, Structural, Debug)]
pub enum DropOutcome {
    /// Other references remain.
    Shared,
    /// This was the last reference: free the task.
    Free,
}

/// The count after taking a reference, and whether it could be taken.
pub open spec fn clone_ref_spec(count: usize) -> (usize, bool) {
    if count < usize::MAX / 2 {
        ((count + 1) as usize, true)
    } else {
        (count, false)
    }
}

/// The count after dropping a reference, and whether it was the last.
pub open spec fn drop_ref_spec(count: usize) -> (usize, DropOutcome) {
    ((count - 1) as usize, if count == 1 { DropOutcome::Free } else { DropOutcome::Shared })
}

/// The header of a task just spawned with id `id`: one reference, and
/// scheduled, since spawning queues it.
pub open spec fn fresh_header(id: u64, kind: TaskKind) -> TaskHeader {
    TaskHeader { ref_counter: 1, id, state: SCHEDULED, kind }
}

/// State, count and action after a wake through a waker that is consumed:
/// the waker's reference moves into the ring when the task is enqueued, and
/// is dropped otherwise.
pub open spec fn wake_owned_spec(state: u8, count: usize) -> (u8, usize, WakeAction) {
    let (s, a) = wake_spec(state);
    if a == WakeAction::AlreadyScheduled {
        (s, drop_ref_spec(count).0, a)
    } else {
        (s, count, a)
    }
}

/// State, count and action after a wake through a waker that is kept: the
/// ring gets a new reference when the task is enqueued.
pub open spec fn wake_by_ref_spec(state: u8, count: usize) -> (u8, usize, WakeAction) {
    let (s, a) = wake_spec(state);
    if a == WakeAction::Enqueue {
        (s, clone_ref_spec(count).0, a)
    } else {
        (s, count, a)
    }
}

/// The state after `k` wakes.
pub open spec fn wakes(state: u8, k: nat) -> u8
    decreases k,
{
    if k == 0 {
        state
    } else {
        wake_spec(wakes(state, (k - 1) as nat)).0
    }
}

/// The shared header of a task.
pub struct TaskHeader {
    pub ref_counter: usize,
    pub id: u64,
    pub state: u8,
    pub kind: TaskKind,
}

impl TaskHeader {
    /// A freshly spawned task: one reference, and scheduled, since spawning
    /// pushes it onto its ring.
    pub fn new(id: u64, kind: TaskKind) -> (h: TaskHeader)
        ensures
            h.ref_counter == 1,
            h.id == id,
            h.state == SCHEDULED,
            h.kind == kind,
            h == fresh_header(id, kind),
    {
        TaskHeader { ref_counter: 1, id, state: SCHEDULED, kind }
    }

    /// Takes one more reference. Returns `false`, and the runtime aborts,
    /// when the count had already reached half the address space.
    pub fn clone_ref(&mut self) -> (ok: bool)
        ensures
            (final(self).ref_counter, ok) == clone_ref_spec(old(self).ref_counter),
            final(self).id == old(self).id,
            final(self).state == old(self).state,
            final(self).kind == old(self).kind,
    {
        if self.ref_counter >= usize::MAX / 2 {
            return false;
        }
        self.ref_counter = self.ref_counter + 1;
        true
    }

    /// Drops one reference; the one that drops the last frees the task.
    pub fn drop_ref(&mut self) -> (o: DropOutcome)
        requires
            old(self).ref_counter >= 1,
        ensures
            (final(self).ref_counter, o) == drop_ref_spec(old(self).ref_counter),
            final(self).id == old(self).id,
            final(self).state == old(self).state,
            final(self).kind == old(self).kind,
    {
        self.ref_counter = self.ref_counter - 1;
        if self.ref_counter == 0 {
            DropOutcome::Free
        } else {
            DropOutcome::Shared
        }
    }

    /// Wakes the task through a waker that is consumed: when the task is
    /// already scheduled the waker's reference is dropped (and `Some` says
    /// whether it was the last); otherwise it moves into the ring with the
    /// task (`None`).
    pub fn wake_owned(&mut self) -> (r: (WakeAction, Option<DropOutcome>))
        requires
            old(self).ref_counter >= 1,
        ensures
            (final(self).state, final(self).ref_counter, r.0) == wake_owned_spec(
                old(self).state,
                old(self).ref_counter,
            ),
            r.0 == WakeAction::AlreadyScheduled ==> r.1 == Some(
                drop_ref_spec(old(self).ref_counter).1,
            ),
            r.0 == WakeAction::Enqueue ==> r.1 is None,
            final(self).id == old(self).id,
            final(self).kind == old(self).kind,
    {
        let a = self.wake();
        match a {
            WakeAction::AlreadyScheduled => {
                let o = self.drop_ref();
                (a, Some(o))
            },
            WakeAction::Enqueue => (a, None),
        }
    }

    /// Wakes the task through a waker that is kept: when the task is to be
    /// enqueued, a new reference is taken for the ring. Returns `false` as
    /// the second component, and the runtime aborts, when that reference
    /// cannot be taken.
    pub fn wake_by_ref(&mut self) -> (r: (WakeAction, bool))
        ensures
            r.1 == (r.0 == WakeAction::AlreadyScheduled || clone_ref_spec(
                old(self).ref_counter,
            ).1),
            r.1 ==> (final(self).state, final(self).ref_counter, r.0) == wake_by_ref_spec(
                old(self).state,
                old(self).ref_counter,
            ),
            !r.1 ==> r.0 == WakeAction::Enqueue && final(self).state == wake_spec(
                old(self).state,
            ).0 && final(self).ref_counter == old(self).ref_counter,
            final(self).id == old(self).id,
            final(self).kind == old(self).kind,
    {
        let a = self.wake();
        match a {
            WakeAction::Enqueue => {
                let ok = self.clone_ref();
                (a, ok)
            },
            WakeAction::AlreadyScheduled => (a, true),
        }
    }

    /// Wakes the task: updates its state and says whether to enqueue it.
    pub fn wake(&mut self) -> (a: WakeAction)
        ensures
            (final(self).state, a) == wake_spec(old(self).state),
            final(self).ref_counter == old(self).ref_counter,
            final(self).id == old(self).id,
            final(self).kind == old(self).kind,
    {
        let (s, a) = wake_transition(self.state);
        self.state = s;
        a
    }

    /// Updates the state after a poll returned `Pending` and says what the poller does next.
    pub fn after_pending(&mut self) -> (a: PendingAction)
        ensures
            (final(self).state, a) == pending_spec(old(self).state),
            final(self).ref_counter == old(self).ref_counter,
            final(self).id == old(self).id,
            final(self).kind == old(self).kind,
    {
        let (s, a) = pending_transition(self.state);
        self.state = s;
        a
    }
}

/// No wake is lost: a wake that comes while the task is scheduled (queued or
/// being polled) makes the poller poll it again.
pub proof fn lemma_wake_while_running_repolls(state: u8)
    requires
        state & 1u8 == 1u8,
    ensures
        wake_spec(state).1 == WakeAction::AlreadyScheduled,
        pending_spec(wake_spec(state).0).1 == PendingAction::Repoll,
        pending_spec(wake_spec(state).0).0 == SCHEDULED,
{
    lemma_state_bits(state);
}

/// A task is enqueued at most once per idle period: of two wakes in a row,
/// at most the first enqueues it.
pub proof fn lemma_second_wake_does_not_enqueue(state: u8)
    ensures
        wake_spec(wake_spec(state).0).1 == WakeAction::AlreadyScheduled,
{
    lemma_state_bits(state);
}

/// A task that goes idle after `Pending` is enqueued by the next wake.
pub proof fn lemma_parked_task_is_enqueued_by_wake(state: u8)
    requires
        pending_spec(state).1 == PendingAction::Park,
    ensures
        pending_spec(state).0 == 0,
        wake_spec(pending_spec(state).0) == (SCHEDULED, WakeAction::Enqueue),
{
    lemma_state_bits(state);
}

/// A freshly spawned task of any kind holds exactly one reference, the one
/// its ring holds, and is scheduled: the first drop of a reference frees it.
pub proof fn lemma_fresh_task_single_reference(id: u64, kind: TaskKind, other: TaskKind)
    ensures
        fresh_header(id, kind).ref_counter == 1,
        fresh_header(id, kind).state == SCHEDULED,
        fresh_header(id, kind).id == id,
        fresh_header(id, kind).kind == kind,
        fresh_header(id, kind).ref_counter == fresh_header(id, other).ref_counter,
        drop_ref_spec(fresh_header(id, kind).ref_counter).1 == DropOutcome::Free,
        drop_ref_spec(fresh_header(id, kind).ref_counter).0 == 0,
{
}

/// Taking a reference and dropping it again restores the count and never
/// frees the task; only dropping the one remaining reference frees it.
pub proof fn lemma_clone_then_drop(count: usize)
    requires
        1 <= count < usize::MAX / 2,
    ensures
        clone_ref_spec(count).1,
        drop_ref_spec(clone_ref_spec(count).0) == (count, DropOutcome::Shared),
        drop_ref_spec(1usize) == (0usize, DropOutcome::Free),
{
}

/// Waking through a kept waker has the same effect on the task as taking
/// a reference and then waking through a consumed waker.
pub proof fn lemma_wake_by_ref_is_clone_then_wake(state: u8, count: usize)
    requires
        1 <= count < usize::MAX / 2,
    ensures
        clone_ref_spec(count).1,
        wake_owned_spec(state, clone_ref_spec(count).0) == wake_by_ref_spec(state, count),
{
}

proof fn lemma_wakes_scheduled(state: u8, k: nat)
    requires
        state == 1 || state == 3,
    ensures
        wakes(state, k) == 1 || wakes(state, k) == 3,
        (wakes(state, k) == 1) == (state == 1 && k == 0),
    decreases k,
{
    if k > 0 {
        lemma_wakes_scheduled(state, (k - 1) as nat);
        lemma_state_bits(wakes(state, (k - 1) as nat));
    }
}

/// A poll of a scheduled task that returns `Pending` leaves it idle only
/// when no wake came in since the task was queued; after any such wake the
/// poller polls it again, with the task scheduled and un-notified. So the
/// poller keeps polling until `Ready`, or until a `Pending` poll with no
/// wake in between, and no wake is lost.
pub proof fn lemma_poll_loop(state: u8, k: nat)
    requires
        state == SCHEDULED || state == 3,
    ensures
        (pending_spec(wakes(state, k)).1 == PendingAction::Park) <==> (state == SCHEDULED && k
            == 0),
        pending_spec(wakes(state, k)).1 == PendingAction::Park ==> pending_spec(
            wakes(state, k),
        ).0 == 0,
        pending_spec(wakes(state, k)).1 == PendingAction::Repoll ==> pending_spec(
            wakes(state, k),
        ).0 == SCHEDULED,
{
    lemma_wakes_scheduled(state, k);
    lemma_state_bits(wakes(state, k));
}

} // verus!
