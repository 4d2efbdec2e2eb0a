//! The abstract model of a notification queue.
//!
//! A queue is modelled by two sequences of callbacks: the ones already
//! handed to a wake, in delivery order, and the ones still pending, oldest
//! first. Each operation of [`crate::queue::WakerQueue`] performs one of the
//! step functions below, as its contract states; the lemmas here are the
//! laws the steps obey.

use vstd::prelude::*;
use std::task::Waker;

verus! {

/// Abstract state of a notification queue: the callbacks woken so far, in
/// delivery order, and the callbacks still pending, oldest first.
#[verifier::ext_equal]
pub struct QueueState {
    pub woken: Seq<Waker>,
    pub pending: Seq<Waker>,
}

impl QueueState {
    /// The state of a freshly constructed queue: nothing woken, nothing
    /// pending.
    pub open spec fn initial() -> QueueState {
        QueueState { woken: Seq::empty(), pending: Seq::empty() }
    }

    /// Every callback the queue was ever handed, each exactly once: the
    /// woken ones first, in delivery order, then the pending ones, oldest
    /// first.
    pub open spec fn registered(self) -> Seq<Waker> {
        self.woken + self.pending
    }
}

/// Registering a callback appends it as the newest pending one and wakes
/// nothing.
pub open spec fn register_step(s: QueueState, w: Waker) -> QueueState {
    QueueState { woken: s.woken, pending: s.pending.push(w) }
}

/// A wake moves every pending callback, oldest first, behind the woken
/// ones, and leaves nothing pending.
pub open spec fn wake_step(s: QueueState) -> QueueState {
    QueueState { woken: s.woken + s.pending, pending: Seq::empty() }
}

/// Teardown discards every pending callback and wakes none of them.
pub open spec fn teardown_step(s: QueueState) -> QueueState {
    QueueState { woken: s.woken, pending: Seq::empty() }
}

/// Registering the callbacks of `ws` one after the other, oldest first.
pub open spec fn register_all(s: QueueState, ws: Seq<Waker>) -> QueueState
    decreases ws.len(),
{
    if ws.len() == 0 {
        s
    } else {
        register_all(register_step(s, ws[0]), ws.drop_first())
    }
}

/// Registrations wake nothing and queue up behind the already-pending
/// callbacks, in registration order.
pub proof fn lemma_register_all(s: QueueState, ws: Seq<Waker>)
    ensures
        register_all(s, ws).woken == s.woken,
        register_all(s, ws).pending == s.pending + ws,
    decreases ws.len(),
{
    if ws.len() == 0 {
        assert(s.pending + ws =~= s.pending);
    } else {
        lemma_register_all(register_step(s, ws[0]), ws.drop_first());
        assert(s.pending.push(ws[0]) + ws.drop_first() =~= s.pending + ws);
    }
}

/// However many callbacks are registered, in whatever interleaving with
/// earlier ones, a single wake invokes them all: each callback ever
/// registered is woken exactly once, in registration order, and the queue
/// is empty afterward.
pub proof fn lemma_wake_after_register_all(s: QueueState, ws: Seq<Waker>)
    ensures
        wake_step(register_all(s, ws)).woken == s.registered() + ws,
        wake_step(register_all(s, ws)).pending == Seq::<Waker>::empty(),
{
    lemma_register_all(s, ws);
    assert(s.woken + (s.pending + ws) =~= (s.woken + s.pending) + ws);
}

/// A wake on a freshly constructed queue wakes nothing and leaves the
/// queue as it was.
pub proof fn lemma_wake_initial()
    ensures
        wake_step(QueueState::initial()) == QueueState::initial(),
{
    assert(wake_step(QueueState::initial()) =~= QueueState::initial());
}

/// A callback handed to a wake is gone for good: waking again, with
/// nothing registered in between, wakes nothing further.
pub proof fn lemma_wake_twice(s: QueueState)
    ensures
        wake_step(wake_step(s)) == wake_step(s),
{
    assert(wake_step(wake_step(s)) =~= wake_step(s));
}

/// A wake neither loses nor invents callbacks: the callbacks the queue was
/// ever handed are the same, in the same order, before and after.
pub proof fn lemma_wake_preserves_registered(s: QueueState)
    ensures
        wake_step(s).registered() == s.registered(),
{
    assert(wake_step(s).registered() =~= s.registered());
}

/// Registrations split by a wake are split exactly there: the callbacks
/// registered before the wake are woken by it, each once, in order; the
/// ones registered after survive it untouched and are woken, each once, in
/// order, by the next wake.
pub proof fn lemma_wake_splits_registrations(s: QueueState, before: Seq<Waker>, after: Seq<Waker>)
    ensures
        wake_step(register_all(s, before)).woken == s.registered() + before,
        register_all(wake_step(register_all(s, before)), after).woken == s.registered() + before,
        wake_step(register_all(wake_step(register_all(s, before)), after)).woken == (s.registered()
            + before) + after,
{
    lemma_wake_after_register_all(s, before);
    let mid = wake_step(register_all(s, before));
    lemma_register_all(mid, after);
    lemma_wake_after_register_all(mid, after);
    assert(mid.registered() =~= s.registered() + before);
}

/// Teardown wakes nothing: whatever was registered since the last wake is
/// discarded, and the callbacks woken over the queue's lifetime are exactly
/// those woken before the teardown.
pub proof fn lemma_teardown_wakes_nothing(s: QueueState, ws: Seq<Waker>)
    ensures
        teardown_step(register_all(s, ws)).woken == s.woken,
{
    lemma_register_all(s, ws);
}

} // verus!
