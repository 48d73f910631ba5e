//! The port: an ordered mailbox whose readable signal tracks non-emptiness.

use vstd::prelude::*;
use crate::packet::PortPacket;

verus! {

/// An ordered, exclusive-access mailbox of packets.
///
/// The queue is strictly FIFO: packets come out of a drain in the order they
/// were pushed. The readable signal bit is derived state, re-established on
/// every mutation: it is set exactly when the queue is non-empty
/// ([`Port::wf`]). The readable bit is the one signal a consumer waits on;
/// because it is updated in the same exclusive-access window as the queue, a
/// waiter that suspends on it cannot miss a wakeup.
///
/// The port itself never suspends and never fails: every operation here
/// returns at once. The blocking form of the drain is built outside the
/// verified core by polling [`Port::try_drain`] and suspending on the
/// readable bit whenever it returns `None`.
pub struct Port {
    queue: Vec<PortPacket>,
    readable: bool,
}

impl Port {
    /// The queued packets, oldest first.
    pub closed spec fn packets(self) -> Seq<PortPacket> {
        self.queue@
    }

    /// The readable signal bit.
    pub closed spec fn readable_bit(self) -> bool {
        self.readable
    }

    /// The port's invariant: readable exactly when the queue is non-empty.
    pub open spec fn wf(self) -> bool {
        self.readable_bit() <==> self.packets().len() > 0
    }

    /// Create an empty port with the readable bit clear. Never fails.
    pub fn new() -> (p: Port)
        ensures
            p.wf(),
            p.packets() =~= Seq::<PortPacket>::empty(),
            !p.readable_bit(),
    {
        Port { queue: Vec::new(), readable: false }
    }

    /// Append one packet at the tail of the queue and set the readable bit.
    ///
    /// Always succeeds; the queue is unbounded at this layer. Setting the
    /// bit in the same exclusive window as the append is what wakes a
    /// consumer suspended on the readable signal, with no lost wakeup.
    pub fn push(&mut self, packet: PortPacket)
        requires
            old(self).wf(),
        ensures
            final(self).wf(),
            final(self).packets() =~= old(self).packets().push(packet),
            final(self).readable_bit(),
    {
        self.queue.push(packet);
        self.readable = true;
    }

    /// The drain decision: if the readable bit is set, atomically clear it,
    /// empty the queue, and return the whole former contents in push order;
    /// otherwise change nothing and return `None`.
    ///
    /// `Some` is returned exactly when the port was readable, and a returned
    /// batch is never empty. A caller that gets `None` suspends on the
    /// readable signal and polls again after the wakeup; a caller that
    /// abandons the wait has, by the `None` case, changed no state at all.
    pub fn try_drain(&mut self) -> (r: Option<Vec<PortPacket>>)
        requires
            old(self).wf(),
        ensures
            final(self).wf(),
            match r {
                Some(batch) => {
                    &&& old(self).readable_bit()
                    &&& batch@ =~= old(self).packets()
                    &&& batch@.len() > 0
                    &&& final(self).packets() =~= Seq::<PortPacket>::empty()
                    &&& !final(self).readable_bit()
                },
                None => {
                    &&& !old(self).readable_bit()
                    &&& *final(self) == *old(self)
                },
            },
    {
        if self.readable {
            self.readable = false;
            let mut batch: Vec<PortPacket> = Vec::new();
            core::mem::swap(&mut batch, &mut self.queue);
            Some(batch)
        } else {
            None
        }
    }

    /// The current queue length. Diagnostic only: nothing else relies on it.
    pub fn packet_count(&self) -> (n: usize)
        ensures
            n == self.packets().len(),
    {
        self.queue.len()
    }

    /// Poll the readable signal, the port's one waitable condition.
    pub fn readable(&self) -> (r: bool)
        ensures
            r == self.readable_bit(),
    {
        self.readable
    }

    /// Runtime check of [`Port::wf`], for unverified callers that must meet
    /// the `requires` of the mutating operations before calling them. A
    /// `false` here means a broken programming contract, not a recoverable
    /// condition.
    pub fn invariant_holds(&self) -> (r: bool)
        ensures
            r == self.wf(),
    {
        self.readable == (self.queue.len() > 0)
    }
}

} // verus!
