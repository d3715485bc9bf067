//! Bounded FIFO of pending turn requests. Input pushes requests as they
//! arrive; the locomotion step pops exactly one per cell-boundary crossing.
//! The buffer keeps at most the two most recent requests and drops the oldest
//! beyond that, so stale input can never queue up.

use vstd::prelude::*;

use crate::direction::RequestDirection;

verus! {

/// Most requests the buffer retains.
pub const TURN_BUFFER_CAPACITY: usize = 2;

/// The buffer contents after one push: the request goes to the back, and the
/// front is evicted when the capacity would be exceeded.
pub open spec fn push_evict(s: Seq<RequestDirection>, d: RequestDirection) -> Seq<
    RequestDirection,
> {
    if s.len() < TURN_BUFFER_CAPACITY {
        s.push(d)
    } else {
        s.push(d).skip(1)
    }
}

/// The buffer contents after a whole sequence of pushes, oldest first.
pub open spec fn push_all(s: Seq<RequestDirection>, reqs: Seq<RequestDirection>) -> Seq<
    RequestDirection,
>
    decreases reqs.len(),
{
    if reqs.len() == 0 {
        s
    } else {
        push_evict(push_all(s, reqs.drop_last()), reqs.last())
    }
}

/// Pending direction requests, decoupling input events from the simulation
/// tick.
pub struct TurnRequestsBuffer {
    buffer: Vec<RequestDirection>,
}

impl View for TurnRequestsBuffer {
    type V = Seq<RequestDirection>;

    closed spec fn view(&self) -> Seq<RequestDirection> {
        self.buffer@
    }
}

impl TurnRequestsBuffer {
    /// The buffer never holds more than the capacity.
    pub open spec fn wf(self) -> bool {
        self@.len() <= TURN_BUFFER_CAPACITY
    }

    pub fn new() -> (r: TurnRequestsBuffer)
        ensures
            r@ == Seq::<RequestDirection>::empty(),
            r.wf(),
    {
        TurnRequestsBuffer { buffer: Vec::new() }
    }

    pub fn len(&self) -> (r: usize)
        ensures
            r == self@.len(),
    {
        self.buffer.len()
    }

    /// Appends a request; when the buffer is full the oldest request is
    /// dropped, since queuing more than the next two turns has no value.
    pub fn push(&mut self, direction: RequestDirection)
        requires
            old(self).wf(),
        ensures
            final(self)@ == push_evict(old(self)@, direction),
            final(self).wf(),
    {
        self.buffer.push(direction);
        if self.buffer.len() > TURN_BUFFER_CAPACITY {
            self.buffer.remove(0);
            proof {
                assert(old(self)@.push(direction).remove(0) =~= old(self)@.push(
                    direction,
                ).skip(1));
            }
        }
    }

    /// FIFO removal: the oldest pending request, or `None` on an empty
    /// buffer.
    pub fn pop(&mut self) -> (r: Option<RequestDirection>)
        ensures
            old(self)@.len() == 0 ==> r is None && final(self)@ == old(self)@,
            old(self)@.len() > 0 ==> r == Some(old(self)@[0]) && final(self)@ == old(
                self,
            )@.skip(1),
            old(self).wf() ==> final(self).wf(),
    {
        if self.buffer.len() == 0 {
            None
        } else {
            let r = self.buffer.remove(0);
            proof {
                assert(old(self)@.remove(0) =~= old(self)@.skip(1));
            }
            Some(r)
        }
    }
}

/// Turn buffer bound: starting from any buffer within capacity, after any
/// sequence of pushes the buffer holds at most two requests, and once at
/// least two have been pushed it holds exactly the two most recent ones, in
/// order.
pub proof fn lemma_buffer_keeps_last_two(s: Seq<RequestDirection>, reqs: Seq<RequestDirection>)
    requires
        s.len() <= TURN_BUFFER_CAPACITY,
    ensures
        push_all(s, reqs).len() <= TURN_BUFFER_CAPACITY,
        reqs.len() >= 1 ==> push_all(s, reqs).len() >= 1 && push_all(s, reqs).last()
            == reqs.last(),
        reqs.len() >= 2 ==> push_all(s, reqs) == seq![
            reqs[reqs.len() - 2],
            reqs[reqs.len() - 1],
        ],
    decreases reqs.len(),
{
    if reqs.len() == 0 {
    } else {
        let prefix = reqs.drop_last();
        lemma_buffer_keeps_last_two(s, prefix);
        let p = push_all(s, prefix);
        let d = reqs.last();
        if reqs.len() >= 2 {
            assert(prefix.last() == reqs[reqs.len() - 2]);
            if p.len() == 1 {
                assert(push_evict(p, d) =~= seq![p[0], d]);
            } else {
                assert(p.len() == 2);
                assert(push_evict(p, d) =~= seq![p[1], d]);
            }
        }
    }
}

} // verus!
