//! The notification queue itself: an owned chain of nodes, one callback
//! each, drained all at once.

use vstd::prelude::*;
use std::task::Waker;
use crate::model::{QueueState, register_step, wake_step, teardown_step};

verus! {

/// One chain link: the callback it carries and the link to the next-newer
/// node.
struct WakerNode {
    waker: Waker,
    next: Option<Box<WakerNode>>,
}

/// The callbacks carried by the chain starting at `node`, oldest first.
spec fn chain_view(node: Option<Box<WakerNode>>) -> Seq<Waker>
    decreases node,
{
    match node {
        None => Seq::empty(),
        Some(n) => seq![n.waker] + chain_view(n.next),
    }
}

/// A queue of one-shot wake-up callbacks.
///
/// `register` appends a callback; `wake_all` drains the whole chain,
/// invoking every callback exactly once in registration order; `teardown`
/// frees the chain without invoking anything. The ghost `history` records
/// every callback handed to a wake, so the contracts can say not only what
/// is pending but also what has been woken.
pub struct WakerQueue {
    head: Option<Box<WakerNode>>,
    history: Ghost<Seq<Waker>>,
}

impl WakerQueue {
    /// The callbacks registered and not yet drained, oldest first.
    pub closed spec fn pending(&self) -> Seq<Waker> {
        chain_view(self.head)
    }

    /// Every callback handed to a wake so far, in delivery order.
    pub closed spec fn woken(&self) -> Seq<Waker> {
        self.history@
    }

    /// The queue as a state of the abstract model.
    pub open spec fn state(&self) -> QueueState {
        QueueState { woken: self.woken(), pending: self.pending() }
    }

    /// Creates an empty queue: nothing pending, nothing woken.
    pub fn new() -> (q: WakerQueue)
        ensures
            q.pending() == Seq::<Waker>::empty(),
            q.woken() == Seq::<Waker>::empty(),
            q.state() == QueueState::initial(),
    {
        let q = WakerQueue { head: None, history: Ghost(Seq::empty()) };
        proof {
            assert(q.state() =~= QueueState::initial());
        }
        q
    }

    /// Reports whether any callback is pending.
    pub fn is_empty(&self) -> (e: bool)
        ensures
            e == (self.pending().len() == 0),
    {
        match &self.head {
            None => true,
            Some(_) => {
                proof {
                    assert(self.pending().len() > 0);
                }
                false
            }
        }
    }

    /// Appends `w` as the newest pending callback; nothing is woken by a
    /// registration.
    pub fn register(&mut self, w: Waker)
        ensures
            final(self).pending() == old(self).pending().push(w),
            final(self).woken() == old(self).woken(),
            final(self).state() == register_step(old(self).state(), w),
    {
        push_back(&mut self.head, w);
        proof {
            assert(self.state() =~= register_step(old(self).state(), w));
        }
    }

    /// Drains the whole chain: every pending callback is invoked exactly
    /// once, oldest first, and the queue is empty afterward.
    pub fn wake_all(&mut self)
        ensures
            final(self).pending() == Seq::<Waker>::empty(),
            final(self).woken() == old(self).woken() + old(self).pending(),
            final(self).state() == wake_step(old(self).state()),
    {
        let mut cur = self.head.take();
        loop
            invariant
                self.head is None,
                self.history@ + chain_view(cur) == old(self).woken() + old(self).pending(),
            ensures
                cur is None,
                self.head is None,
                self.history@ + chain_view(cur) == old(self).woken() + old(self).pending(),
            decreases chain_view(cur).len(),
        {
            let ghost cur0 = cur;
            match cur {
                None => {
                    break;
                }
                Some(boxed) => {
                    let WakerNode { waker, next } = *boxed;
                    let ghost w = waker;
                    let ghost hist0 = self.history@;
                    waker.wake();
                    self.history = Ghost(hist0.push(w));
                    proof {
                        assert(chain_view(cur0) == seq![w] + chain_view(next));
                        assert(hist0.push(w) + chain_view(next) =~= hist0 + chain_view(cur0));
                    }
                    cur = next;
                }
            }
        }
        proof {
            assert(chain_view(cur) =~= Seq::<Waker>::empty());
            assert(self.woken() =~= old(self).woken() + old(self).pending());
            assert(self.state() =~= wake_step(old(self).state()));
        }
    }

    /// Frees every pending node without invoking its callback; what has
    /// been woken is exactly what was woken before. The queue owns its
    /// chain whole, so the walk cannot find the chain ended early: a lost
    /// node is ruled out by construction, not detected at run time.
    pub fn teardown(&mut self)
        ensures
            final(self).pending() == Seq::<Waker>::empty(),
            final(self).woken() == old(self).woken(),
            final(self).state() == teardown_step(old(self).state()),
    {
        let mut cur = self.head.take();
        loop
            invariant
                self.head is None,
                self.history == old(self).history,
            decreases chain_view(cur).len(),
        {
            let ghost cur0 = cur;
            match cur {
                None => {
                    break;
                }
                Some(boxed) => {
                    let WakerNode { waker: _, next } = *boxed;
                    proof {
                        assert(chain_view(cur0).len() == 1 + chain_view(next).len());
                    }
                    cur = next;
                }
            }
        }
        proof {
            assert(self.state() =~= teardown_step(old(self).state()));
        }
    }
}

/// Walks to the tail of the chain and links a fresh node holding `w` there.
fn push_back(node: &mut Option<Box<WakerNode>>, w: Waker)
    ensures
        chain_view(*final(node)) == chain_view(*old(node)).push(w),
    decreases *old(node),
{
    match node.take() {
        None => {
            *node = Some(Box::new(WakerNode { waker: w, next: None }));
            proof {
                assert(chain_view(*node) =~= chain_view(*old(node)).push(w));
            }
        }
        Some(mut boxed) => {
            push_back(&mut boxed.next, w);
            *node = Some(boxed);
            proof {
                assert(chain_view(*node) =~= chain_view(*old(node)).push(w));
            }
        }
    }
}

} // verus!
