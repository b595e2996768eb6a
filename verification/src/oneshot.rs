//! The one-shot channel that carries a spawned task's result to its join
//! handle. One byte of flags says which ends are alive, whether a message
//! and a waker are stored, and whether the receiver has finished.

use vstd::prelude::*;

verus! {

/// The sender is alive.
pub const SENDER: u8 = 1;

/// The receiver is alive.
pub const RECEIVER: u8 = 2;

/// A message is stored.
pub const MESSAGE_READY: u8 = 4;

/// A waker of the receiving task is stored.
pub const WAKER_READY: u8 = 8;

/// The receiver has returned its result; polling again is a bug.
pub const TERMINATED: u8 = 16;

/// Flag `f` (a single bit) is set in `s`.
pub open spec fn flag_set(s: u8, f: u8) -> bool {
    (s / f) % 2 == 1
}

/// `s` with flag `f` set.
pub open spec fn with(s: u8, f: u8) -> u8 {
    if flag_set(s, f) {
        s
    } else {
        (s + f) as u8
    }
}

/// `s` with flag `f` cleared.
pub open spec fn without(s: u8, f: u8) -> u8 {
    if flag_set(s, f) {
        (s - f) as u8
    } else {
        s
    }
}

proof fn lemma_flag_ops(s: u8)
    by (bit_vector)
    ensures
        (s & 1u8 != 0u8) == ((s / 1u8) % 2 == 1),
        (s & 2u8 != 0u8) == ((s / 2u8) % 2 == 1),
        (s & 4u8 != 0u8) == ((s / 4u8) % 2 == 1),
        (s & 8u8 != 0u8) == ((s / 8u8) % 2 == 1),
        (s & 16u8 != 0u8) == ((s / 16u8) % 2 == 1),
        s | 4u8 == (if (s / 4u8) % 2 == 1 { s } else { (s + 4u8) as u8 }),
        s | 8u8 == (if (s / 8u8) % 2 == 1 { s } else { (s + 8u8) as u8 }),
        s | 16u8 == (if (s / 16u8) % 2 == 1 { s } else { (s + 16u8) as u8 }),
        s & !1u8 == (if (s / 1u8) % 2 == 1 { (s - 1u8) as u8 } else { s }),
        s & !2u8 == (if (s / 2u8) % 2 == 1 { (s - 2u8) as u8 } else { s }),
        s & !4u8 == (if (s / 4u8) % 2 == 1 { (s - 4u8) as u8 } else { s }),
        s & !8u8 == (if (s / 8u8) % 2 == 1 { (s - 8u8) as u8 } else { s }),
{
}

/// The outcome of polling the receiver.
pub enum RecvPoll<T> {
    /// The message, or `Err(())` when the sender went away without one.
    Ready(Result<T, ()>),
    /// No message yet; the receiving task's waker is stored.
    Pending,
}

/// The shared part of a one-shot channel carrying a `T`, woken through a
/// `W`.
pub struct InternalOneshot<T, W> {
    pub state: u8,
    pub message: Option<T>,
    pub waker: Option<W>,
}

/// How the flag operations of this module act on each flag.
proof fn lemma_flags(s: u8)
    by (bit_vector)
    ensures
        s & 8u8 != 0u8 ==> (s & !8u8) | 8u8 == s,
        s & 8u8 == 0u8 ==> (s | 16u8) & !8u8 == s | 16u8,
        (s & 8u8 != 8u8) == (s & 8u8 == 0u8),
        (s & 4u8 != 4u8) == (s & 4u8 == 0u8),
        (s & 2u8 != 2u8) == (s & 2u8 == 0u8),
        (s & 1u8 != 1u8) == (s & 1u8 == 0u8),
        (s & !8u8) & 8u8 == 0u8,
        (s & !8u8) & 4u8 == s & 4u8,
        (s & !8u8) & 2u8 == s & 2u8,
        (s & !8u8) & 1u8 == s & 1u8,
        (s & !8u8) & 16u8 == s & 16u8,
        (s | 8u8) & 8u8 != 0u8,
        (s | 8u8) & 4u8 == s & 4u8,
        (s | 8u8) & 2u8 == s & 2u8,
        (s | 8u8) & 1u8 == s & 1u8,
        (s | 8u8) & 16u8 == s & 16u8,
        (s | 4u8) & 4u8 != 0u8,
        (s | 4u8) & 8u8 == s & 8u8,
        (s | 4u8) & 2u8 == s & 2u8,
        (s | 4u8) & 1u8 == s & 1u8,
        (s | 4u8) & 16u8 == s & 16u8,
        (s & !4u8) & 4u8 == 0u8,
        (s & !4u8) & 8u8 == s & 8u8,
        (s | 16u8) & 4u8 == s & 4u8,
        (s | 16u8) & 8u8 == s & 8u8,
        (s | 16u8) & 16u8 != 0u8,
        ((s & !4u8) | 16u8) & 4u8 == 0u8,
        ((s & !4u8) | 16u8) & 8u8 == s & 8u8,
        ((s | 16u8) & !8u8) & 8u8 == 0u8,
        ((s | 16u8) & !8u8) & 4u8 == s & 4u8,
        (s & !1u8) & 4u8 == s & 4u8,
        (s & !1u8) & 8u8 == s & 8u8,
        (s & !1u8) & 2u8 == s & 2u8,
        (s & !1u8) & 1u8 == 0u8,
        (s & !1u8) & 16u8 == s & 16u8,
        (s & !2u8) & 4u8 == s & 4u8,
        (s & !2u8) & 8u8 == s & 8u8,
        (s & !2u8) & 1u8 == s & 1u8,
        (s & !2u8) & 2u8 == 0u8,
        (s & !2u8) & 16u8 == s & 16u8,
{
}


impl<T, W> InternalOneshot<T, W> {
    /// The flag byte.
    pub open spec fn flags(self) -> u8 {
        self.state
    }

    /// The stored message.
    pub open spec fn message_spec(self) -> Option<T> {
        self.message
    }

    /// The stored waker.
    pub open spec fn waker_spec(self) -> Option<W> {
        self.waker
    }

    /// The message flag says whether a message is stored, and the waker flag
    /// whether a waker is.
    pub open spec fn wf(self) -> bool {
        &&& flag_set(self.state, MESSAGE_READY) == self.message is Some
        &&& flag_set(self.state, WAKER_READY) == self.waker is Some
    }

    /// What sending `v` does: with the receiver alive, the message is stored
    /// and a stored waker is handed back to be woken; otherwise nothing.
    pub open spec fn send_spec(self, v: T) -> (Self, Option<W>) {
        if flag_set(self.state, RECEIVER) {
            let s = with(self.state, MESSAGE_READY);
            if flag_set(s, WAKER_READY) {
                (
                    InternalOneshot { state: without(s, WAKER_READY), message: Some(v), waker: None },
                    self.waker,
                )
            } else {
                (InternalOneshot { state: s, message: Some(v), waker: self.waker }, None)
            }
        } else {
            (self, None)
        }
    }

    /// Whether a poll would store a fresh waker of the polling task: no
    /// message yet, the sender alive, and no stored waker that already wakes
    /// the polling task.
    pub open spec fn needs_waker_spec(self, will_wake: bool) -> bool {
        &&& !flag_set(self.state, MESSAGE_READY)
        &&& flag_set(self.state, SENDER)
        &&& !(flag_set(self.state, WAKER_READY) && will_wake)
    }

    /// What polling does, with `w` a waker of the polling task (needed only
    /// when `needs_waker_spec` holds) and `will_wake` whether the stored
    /// waker already wakes that task.
    pub open spec fn poll_spec(self, w: Option<W>, will_wake: bool) -> (Self, RecvPoll<T>) {
        let keep = flag_set(self.state, WAKER_READY) && will_wake;
        let s0 = if flag_set(self.state, WAKER_READY) && !will_wake {
            without(self.state, WAKER_READY)
        } else {
            self.state
        };
        let kept = if keep { self.waker } else { None };
        if flag_set(self.state, MESSAGE_READY) {
            (
                InternalOneshot {
                    state: with(without(s0, MESSAGE_READY), TERMINATED),
                    message: None,
                    waker: kept,
                },
                RecvPoll::Ready(Ok(self.message->Some_0)),
            )
        } else if flag_set(self.state, SENDER) {
            (
                InternalOneshot {
                    state: with(s0, WAKER_READY),
                    message: self.message,
                    waker: if keep { self.waker } else { w },
                },
                RecvPoll::Pending,
            )
        } else {
            (
                InternalOneshot {
                    state: without(with(s0, TERMINATED), WAKER_READY),
                    message: self.message,
                    waker: None,
                },
                RecvPoll::Ready(Err(())),
            )
        }
    }

    /// What dropping one end does: while the other end (`other`) is alive,
    /// this end's flag (`mine`) is cleared; otherwise the channel is freed,
    /// with whatever message and waker it still holds.
    pub open spec fn drop_spec(self, mine: u8, other: u8) -> (Self, bool) {
        if flag_set(self.state, other) {
            (InternalOneshot { state: without(self.state, mine), ..self }, false)
        } else {
            (InternalOneshot { state: self.state, message: None, waker: None }, true)
        }
    }

    /// A channel with both ends alive and nothing stored.
    pub fn new() -> (c: Self)
        ensures
            c.wf(),
            c.flags() == 3,
            c.message_spec() is None,
            c.waker_spec() is None,
    {
        let c = InternalOneshot { state: SENDER | RECEIVER, message: None, waker: None };
        proof {
            assert(1u8 | 2u8 == 3u8) by (bit_vector);
        }
        c
    }

    /// The flag byte.
    pub fn state(&self) -> (s: u8)
        ensures
            s == self.flags(),
    {
        self.state
    }

    /// The stored waker, if any (to ask whether it wakes the polling task).
    pub fn stored_waker(&self) -> (w: Option<&W>)
        ensures
            w == match self.waker_spec() {
                Some(x) => Some(&x),
                None => None,
            },
    {
        match &self.waker {
            Some(x) => Some(x),
            None => None,
        }
    }

    /// Sends `val`. Returns the receiver's waker when one was stored: the
    /// caller wakes it.
    pub fn send(&mut self, val: T) -> (r: Option<W>)
        requires
            old(self).wf(),
        ensures
            final(self).wf(),
            (*final(self), r) == old(self).send_spec(val),
    {
        let ghost s0 = self.state;
        proof {
            lemma_flags(s0);
            lemma_flag_ops(s0);
            lemma_flags(s0 | 4u8);
            lemma_flag_ops(s0 | 4u8);
            lemma_flags((s0 | 4u8) & !8u8);
            lemma_flag_ops((s0 | 4u8) & !8u8);
        }
        if (self.state & RECEIVER) == RECEIVER {
            self.message = Some(val);
            self.state = self.state | MESSAGE_READY;
            if (self.state & WAKER_READY) == WAKER_READY {
                self.state = self.state & !WAKER_READY;
                return self.waker.take();
            }
            None
        } else {
            None
        }
    }

    /// Whether a poll needs a fresh waker of the polling task; `will_wake`
    /// says whether the stored waker already wakes that task.
    pub fn needs_waker(&self, will_wake: bool) -> (b: bool)
        ensures
            b == self.needs_waker_spec(will_wake),
    {
        proof {
            lemma_flags(self.state);
            lemma_flag_ops(self.state);
        }
        (self.state & MESSAGE_READY) != MESSAGE_READY && (self.state & SENDER) == SENDER && !((
        self.state & WAKER_READY) == WAKER_READY && will_wake)
    }

    /// Polls the receiver with `cx_waker`, a waker of the polling task that
    /// must be given when `needs_waker` says so;
    /// `will_wake` says whether the stored waker already wakes that task.
    /// Polling after the receiver has returned its result is a bug.
    #[verifier::rlimit(60)]
    pub fn poll(&mut self, cx_waker: Option<W>, will_wake: bool) -> (r: RecvPoll<T>)
        requires
            old(self).wf(),
            !flag_set(old(self).flags(), TERMINATED),
            old(self).needs_waker_spec(will_wake) ==> cx_waker is Some,
        ensures
            final(self).wf(),
            (*final(self), r) == old(self).poll_spec(cx_waker, will_wake),
    {
        let state = self.state;
        proof {
            lemma_flags(state);
            lemma_flag_ops(state);
            lemma_flags(state & !8u8);
            lemma_flag_ops(state & !8u8);
            lemma_flags(state | 16u8);
            lemma_flag_ops(state | 16u8);
        }
        let mut waker_set = false;
        if (state & WAKER_READY) == WAKER_READY {
            self.state = self.state & !WAKER_READY;
            if will_wake {
                self.state = self.state | WAKER_READY;
                waker_set = true;
            } else {
                self.waker = None;
            }
        }
        let ghost s0 = self.state;
        proof {
            lemma_flags(s0);
            lemma_flag_ops(s0);
            lemma_flags(s0 & !4u8);
            lemma_flag_ops(s0 & !4u8);
            lemma_flags(s0 | 16u8);
            lemma_flag_ops(s0 | 16u8);
        }
        if (state & MESSAGE_READY) == MESSAGE_READY {
            let msg = self.message.take();
            self.state = self.state & !MESSAGE_READY;
            self.state = self.state | TERMINATED;
            match msg {
                Some(m) => {
                    return RecvPoll::Ready(Ok(m));
                },
                None => {
                    proof {
                        assert(false);
                    }
                    return RecvPoll::Pending;
                },
            }
        }
        if (state & SENDER) == SENDER {
            if !waker_set {
                self.waker = cx_waker;
            }
            self.state = self.state | WAKER_READY;
            return RecvPoll::Pending;
        }
        self.state = self.state | TERMINATED;
        if waker_set {
            self.waker = None;
        }
        if (state & WAKER_READY) == WAKER_READY {
            self.state = self.state & !WAKER_READY;
        }
        RecvPoll::Ready(Err(()))
    }

    /// Drops the sender. Returns `true` when the receiver was already gone:
    /// the caller then frees the channel (whatever it held is dropped here).
    pub fn drop_sender(&mut self) -> (freed: bool)
        requires
            old(self).wf(),
        ensures
            !freed ==> final(self).wf(),
            (*final(self), freed) == old(self).drop_spec(SENDER, RECEIVER),
    {
        proof {
            lemma_flags(self.state);
            lemma_flag_ops(self.state);
        }
        if (self.state & RECEIVER) == RECEIVER {
            self.state = self.state & !SENDER;
            return false;
        }
        self.message = None;
        self.waker = None;
        true
    }

    /// Drops the receiver. Returns `true` when the sender was already gone:
    /// the caller then frees the channel (whatever it held is dropped here).
    pub fn drop_receiver(&mut self) -> (freed: bool)
        requires
            old(self).wf(),
        ensures
            !freed ==> final(self).wf(),
            (*final(self), freed) == old(self).drop_spec(RECEIVER, SENDER),
    {
        proof {
            lemma_flags(self.state);
            lemma_flag_ops(self.state);
        }
        if (self.state & SENDER) == SENDER {
            self.state = self.state & !RECEIVER;
            return false;
        }
        self.message = None;
        self.waker = None;
        true
    }
}

/// What a send gives back, a read gets: with the receiver alive and not yet
/// finished, sending `v` and then polling yields `Ready(Ok(v))`.
pub proof fn lemma_send_then_poll_delivers<T, W>(c: InternalOneshot<T, W>, v: T, w: Option<W>, will_wake: bool)
    requires
        c.wf(),
        flag_set(c.flags(), RECEIVER),
        !flag_set(c.flags(), TERMINATED),
    ensures
        c.send_spec(v).0.wf(),
        !flag_set(c.send_spec(v).0.flags(), TERMINATED),
        c.send_spec(v).0.poll_spec(w, will_wake).1 == RecvPoll::<T>::Ready(Ok(v)),
        flag_set(c.send_spec(v).0.poll_spec(w, will_wake).0.flags(), TERMINATED),
{
    lemma_flags(c.state);
    lemma_flag_ops(c.state);
    lemma_flags(c.state | 4u8);
    lemma_flag_ops(c.state | 4u8);
    lemma_flags((c.state | 4u8) & !8u8);
    lemma_flag_ops((c.state | 4u8) & !8u8);
    let c1 = c.send_spec(v).0;
    lemma_flags(c1.state);
    lemma_flag_ops(c1.state);
    lemma_flags(c1.state & !8u8);
    lemma_flag_ops(c1.state & !8u8);
    lemma_flags((c1.state & !8u8) & !4u8);
    lemma_flag_ops((c1.state & !8u8) & !4u8);
    lemma_flags(c1.state & !4u8);
    lemma_flag_ops(c1.state & !4u8);
}

/// A receiver whose sender went away without sending gets `Err(())`.
pub proof fn lemma_sender_gone_gives_error<T, W>(c: InternalOneshot<T, W>, w: Option<W>, will_wake: bool)
    requires
        c.wf(),
        flag_set(c.flags(), RECEIVER),
        !flag_set(c.flags(), MESSAGE_READY),
        !flag_set(c.flags(), TERMINATED),
    ensures
        !c.drop_spec(SENDER, RECEIVER).1,
        c.drop_spec(SENDER, RECEIVER).0.wf(),
        c.drop_spec(SENDER, RECEIVER).0.poll_spec(w, will_wake).1 == RecvPoll::<T>::Ready(Err(())),
{
    lemma_flags(c.state);
    lemma_flag_ops(c.state);
    let c1 = c.drop_spec(SENDER, RECEIVER).0;
    lemma_flags(c1.state);
    lemma_flag_ops(c1.state);
    lemma_flags(c1.state & !8u8);
    lemma_flag_ops(c1.state & !8u8);
    lemma_flags(c1.state | 16u8);
    lemma_flag_ops(c1.state | 16u8);
}

/// No wake-up is lost: a receiver that polls before the message is sent is
/// left pending with a waker stored, and the send hands exactly that waker
/// back to be woken; the next poll then yields the message.
pub proof fn lemma_pending_receiver_is_woken<T, W>(
    c: InternalOneshot<T, W>,
    w: Option<W>,
    will_wake: bool,
    v: T,
    w2: Option<W>,
    will_wake2: bool,
)
    requires
        c.wf(),
        flag_set(c.flags(), SENDER),
        flag_set(c.flags(), RECEIVER),
        !flag_set(c.flags(), MESSAGE_READY),
        !flag_set(c.flags(), TERMINATED),
        c.needs_waker_spec(will_wake) ==> w is Some,
    ensures
        c.poll_spec(w, will_wake).1 is Pending,
        c.poll_spec(w, will_wake).0.waker_spec() is Some,
        c.poll_spec(w, will_wake).0.send_spec(v).1 == c.poll_spec(w, will_wake).0.waker_spec(),
        c.poll_spec(w, will_wake).0.send_spec(v).0.wf(),
        !flag_set(c.poll_spec(w, will_wake).0.send_spec(v).0.flags(), TERMINATED),
        c.poll_spec(w, will_wake).0.send_spec(v).0.poll_spec(w2, will_wake2).1 == RecvPoll::<
            T,
        >::Ready(Ok(v)),
{
    lemma_flags(c.state);
    lemma_flag_ops(c.state);
    lemma_flags(c.state & !8u8);
    lemma_flag_ops(c.state & !8u8);
    let c1 = c.poll_spec(w, will_wake).0;
    lemma_flags(c1.state);
    lemma_flag_ops(c1.state);
    lemma_flags(c1.state | 4u8);
    lemma_flag_ops(c1.state | 4u8);
    lemma_flags((c1.state | 4u8) & !8u8);
    lemma_flag_ops((c1.state | 4u8) & !8u8);
    lemma_send_then_poll_delivers(c1, v, w2, will_wake2);
}

/// Dropping one end while the other is alive touches nothing but that end's
/// flag: the stored message and waker, and every other flag, stay as they
/// were, and the channel is not freed.
pub proof fn lemma_drop_keeps_the_rest<T, W>(c: InternalOneshot<T, W>)
    requires
        c.wf(),
    ensures
        flag_set(c.flags(), RECEIVER) ==> {
            let d = c.drop_spec(SENDER, RECEIVER);
            &&& !d.1
            &&& d.0.wf()
            &&& d.0.message_spec() == c.message_spec()
            &&& d.0.waker_spec() == c.waker_spec()
            &&& !flag_set(d.0.flags(), SENDER)
            &&& flag_set(d.0.flags(), RECEIVER)
            &&& flag_set(d.0.flags(), MESSAGE_READY) == flag_set(c.flags(), MESSAGE_READY)
            &&& flag_set(d.0.flags(), WAKER_READY) == flag_set(c.flags(), WAKER_READY)
            &&& flag_set(d.0.flags(), TERMINATED) == flag_set(c.flags(), TERMINATED)
        },
        flag_set(c.flags(), SENDER) ==> {
            let d = c.drop_spec(RECEIVER, SENDER);
            &&& !d.1
            &&& d.0.wf()
            &&& d.0.message_spec() == c.message_spec()
            &&& d.0.waker_spec() == c.waker_spec()
            &&& !flag_set(d.0.flags(), RECEIVER)
            &&& flag_set(d.0.flags(), SENDER)
            &&& flag_set(d.0.flags(), MESSAGE_READY) == flag_set(c.flags(), MESSAGE_READY)
            &&& flag_set(d.0.flags(), WAKER_READY) == flag_set(c.flags(), WAKER_READY)
            &&& flag_set(d.0.flags(), TERMINATED) == flag_set(c.flags(), TERMINATED)
        },
{
    lemma_flags(c.state);
    lemma_flag_ops(c.state);
    lemma_flags(c.state & !1u8);
    lemma_flag_ops(c.state & !1u8);
    lemma_flags(c.state & !2u8);
    lemma_flag_ops(c.state & !2u8);
}

/// A result sent before the sending task's end of the channel goes away is
/// still delivered: sending `v`, then dropping the sender, then polling the
/// receiver yields `Ready(Ok(v))`.
pub proof fn lemma_send_drop_then_poll_delivers<T, W>(
    c: InternalOneshot<T, W>,
    v: T,
    w: Option<W>,
    will_wake: bool,
)
    requires
        c.wf(),
        flag_set(c.flags(), SENDER),
        flag_set(c.flags(), RECEIVER),
        !flag_set(c.flags(), TERMINATED),
    ensures
        !c.send_spec(v).0.drop_spec(SENDER, RECEIVER).1,
        c.send_spec(v).0.drop_spec(SENDER, RECEIVER).0.wf(),
        !flag_set(c.send_spec(v).0.drop_spec(SENDER, RECEIVER).0.flags(), TERMINATED),
        c.send_spec(v).0.drop_spec(SENDER, RECEIVER).0.poll_spec(w, will_wake).1 == RecvPoll::<
            T,
        >::Ready(Ok(v)),
{
    lemma_flags(c.state);
    lemma_flag_ops(c.state);
    lemma_flags(c.state | 4u8);
    lemma_flag_ops(c.state | 4u8);
    lemma_flags((c.state | 4u8) & !8u8);
    lemma_flag_ops((c.state | 4u8) & !8u8);
    let c1 = c.send_spec(v).0;
    lemma_drop_keeps_the_rest(c1);
    let c2 = c1.drop_spec(SENDER, RECEIVER).0;
    lemma_flags(c2.state);
    lemma_flag_ops(c2.state);
    lemma_flags(c2.state & !8u8);
    lemma_flag_ops(c2.state & !8u8);
    lemma_flags((c2.state & !8u8) & !4u8);
    lemma_flag_ops((c2.state & !8u8) & !4u8);
    lemma_flags(c2.state & !4u8);
    lemma_flag_ops(c2.state & !4u8);
}

/// A task that polls while no message is stored, the sender is alive and
/// the stored waker (if any) does not wake it must hand a fresh waker; that
/// waker is the one stored by the pending poll, and the next send hands it
/// back to be woken.
pub proof fn lemma_foreign_waker_is_replaced<T, W>(c: InternalOneshot<T, W>, x: W, v: T)
    requires
        c.wf(),
        flag_set(c.flags(), SENDER),
        flag_set(c.flags(), RECEIVER),
        !flag_set(c.flags(), MESSAGE_READY),
        !flag_set(c.flags(), TERMINATED),
    ensures
        c.needs_waker_spec(false),
        c.poll_spec(Some(x), false).1 is Pending,
        c.poll_spec(Some(x), false).0.waker_spec() == Some(x),
        c.poll_spec(Some(x), false).0.send_spec(v).1 == Some(x),
{
    lemma_pending_receiver_is_woken(c, Some(x), false, v, None, false);
}

/// A task whose stored waker already wakes it needs no fresh one: a
/// pending poll keeps the stored waker, and the next send hands it back.
pub proof fn lemma_own_waker_is_kept<T, W>(c: InternalOneshot<T, W>, v: T)
    requires
        c.wf(),
        flag_set(c.flags(), SENDER),
        flag_set(c.flags(), RECEIVER),
        !flag_set(c.flags(), MESSAGE_READY),
        !flag_set(c.flags(), TERMINATED),
        c.waker_spec() is Some,
    ensures
        !c.needs_waker_spec(true),
        c.poll_spec(None, true).1 is Pending,
        c.poll_spec(None, true).0.waker_spec() == c.waker_spec(),
        c.poll_spec(None, true).0.send_spec(v).1 == c.waker_spec(),
{
    lemma_pending_receiver_is_woken(c, None, true, v, None, false);
}

/// Whichever end is dropped second frees the channel, and only that one.
pub proof fn lemma_second_drop_frees<T, W>(c: InternalOneshot<T, W>)
    requires
        c.wf(),
        flag_set(c.flags(), SENDER),
        flag_set(c.flags(), RECEIVER),
    ensures
        !c.drop_spec(SENDER, RECEIVER).1,
        c.drop_spec(SENDER, RECEIVER).0.drop_spec(RECEIVER, SENDER).1,
        !c.drop_spec(RECEIVER, SENDER).1,
        c.drop_spec(RECEIVER, SENDER).0.drop_spec(SENDER, RECEIVER).1,
{
    lemma_flags(c.state);
    lemma_flag_ops(c.state);
    lemma_flags(c.state & !1u8);
    lemma_flag_ops(c.state & !1u8);
    lemma_flags(c.state & !2u8);
    lemma_flag_ops(c.state & !2u8);
}

} // verus!
