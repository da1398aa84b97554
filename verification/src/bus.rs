//! The shared transition bus: a bounded FIFO queue of transitions.
//!
//! Producers append at the back; the single logical receiving end takes from
//! the front, one message per call, so no message is observed twice. The bus
//! keeps ghost logs of everything ever sent and received; its invariant —
//! the sent log is the received log followed by the queue — is what makes
//! the FIFO delivery order a theorem rather than a comment.

use vstd::prelude::*;

verus! {

/// The record of one step's outcome, immutable once created; a copy moves
/// onto the bus, so no producer ever observes another's mutations.
#[derive(Clone, Copy, Debug, PartialEq, Eq, Structural)]
pub struct Transition {
    /// The agent that took the step.
    pub agent_id: usize,
    /// The state the agent occupies after the step.
    pub resulting_state: usize,
    /// The fixed-point reward observed.
    pub reward: u64,
    /// The state the environment returned.
    pub next_state: usize,
}

/// The transitions belonging to one agent.
pub open spec fn from_agent(id: usize) -> spec_fn(Transition) -> bool {
    |t: Transition| t.agent_id == id
}

/// A bounded FIFO queue of transitions with ghost logs of its history.
pub struct TransitionBus {
    /// The pending messages, oldest first.
    pub queue: Vec<Transition>,
    /// The fixed capacity; `send` refuses to grow the queue past it.
    pub capacity: usize,
    /// Everything ever sent, in send order.
    pub sent: Ghost<Seq<Transition>>,
    /// Everything ever received, in receive order.
    pub received: Ghost<Seq<Transition>>,
}

impl TransitionBus {
    /// The bus invariant: the queue respects the capacity, and the sent log
    /// is exactly the received log followed by what is still queued.
    pub open spec fn wf(self) -> bool {
        &&& 1 <= self.capacity
        &&& self.queue@.len() <= self.capacity
        &&& self.sent@ == self.received@ + self.queue@
    }

    /// How many messages are pending.
    pub open spec fn spec_len(self) -> nat {
        self.queue@.len()
    }

    /// An empty bus with the given capacity.
    pub fn new(capacity: usize) -> (bus: TransitionBus)
        requires
            1 <= capacity,
        ensures
            bus.wf(),
            bus.capacity == capacity,
            bus.spec_len() == 0,
            bus.sent@ == Seq::<Transition>::empty(),
            bus.received@ == Seq::<Transition>::empty(),
    {
        let bus = TransitionBus {
            queue: Vec::new(),
            capacity,
            sent: Ghost(Seq::empty()),
            received: Ghost(Seq::empty()),
        };
        proof {
            assert(bus.sent@ =~= bus.received@ + bus.queue@);
        }
        bus
    }

    /// How many messages are pending.
    pub fn len(&self) -> (n: usize)
        ensures
            n == self.spec_len(),
    {
        self.queue.len()
    }

    /// Enqueue a transition at the back. Succeeds exactly when the queue is
    /// below capacity; a full queue leaves the bus unchanged, surfacing the
    /// backpressure to the caller instead of dropping the message.
    pub fn send(&mut self, t: Transition) -> (ok: bool)
        requires
            old(self).wf(),
        ensures
            final(self).wf(),
            final(self).capacity == old(self).capacity,
            ok <==> old(self).spec_len() < old(self).capacity,
            ok ==> final(self).queue@ == old(self).queue@.push(t) && final(self).sent@ == old(
                self,
            ).sent@.push(t) && final(self).received == old(self).received,
            !ok ==> *final(self) == *old(self),
    {
        if self.queue.len() < self.capacity {
            self.queue.push(t);
            proof {
                self.sent@ = self.sent@.push(t);
                assert(self.sent@ =~= self.received@ + self.queue@);
            }
            true
        } else {
            false
        }
    }

    /// Dequeue the oldest pending transition, if any: non-blocking, and the
    /// caller holds the receiving end only for the duration of the call.
    pub fn try_receive(&mut self) -> (r: Option<Transition>)
        requires
            old(self).wf(),
        ensures
            final(self).wf(),
            final(self).capacity == old(self).capacity,
            final(self).sent == old(self).sent,
            old(self).spec_len() == 0 ==> r is None && *final(self) == *old(self),
            old(self).spec_len() > 0 ==> r == Some(old(self).queue@[0]) && final(self).queue@
                == old(self).queue@.drop_first() && final(self).received@ == old(
                self,
            ).received@.push(old(self).queue@[0]),
    {
        if self.queue.len() == 0 {
            None
        } else {
            let t = self.queue.remove(0);
            proof {
                self.received@ = self.received@.push(t);
                assert(self.queue@ =~= old(self).queue@.drop_first());
                assert(self.sent@ =~= self.received@ + self.queue@);
            }
            Some(t)
        }
    }
}

/// Law: the bus delivers messages in the order they entered it, so the
/// transitions of any single agent are received in the same relative order
/// that agent sent them — whatever other agents' messages were interleaved
/// with them. Concretely: the received log, restricted to one agent, is a
/// prefix of the sent log restricted to that agent, the rest of it being
/// still queued.
pub proof fn lemma_per_agent_fifo(bus: TransitionBus, id: usize)
    requires
        bus.wf(),
    ensures
        bus.sent@.filter(from_agent(id)) == bus.received@.filter(from_agent(id))
            + bus.queue@.filter(from_agent(id)),
{
    Seq::filter_distributes_over_add(bus.received@, bus.queue@, from_agent(id));
}

} // verus!
