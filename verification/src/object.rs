//! The generic signal-bearing object and the signal-to-port bridge.
//!
//! Every waitable object carries a signal bitmask plus a registry of one-shot
//! bindings. A binding ties a mask to a destination port and a correlation
//! key; the first state transition that satisfies the mask consumes the
//! binding and synthesizes exactly one packet for that port. Object identity
//! and shared ownership of ports are outside this core: a binding names its
//! destination by a stable slot index, and [`deliver_all`] routes a batch of
//! synthesized deliveries into a slot table of ports.

use vstd::prelude::*;
use crate::packet::{PortPacket, PortPacketPayload, ZxError};
use crate::port::Port;
use crate::signal::Signal;

verus! {

/// A one-shot registration: when the owning object's state first satisfies
/// `mask`, enqueue a packet with key `key` into the port in slot `port_id`.
#[derive(Clone, Copy, Debug, PartialEq, Eq, Structural)]
pub struct Binding {
    pub mask: Signal,
    pub port_id: usize,
    pub key: u64,
}

/// A packet synthesized by a binding, together with the slot of the port it
/// is owed to.
#[derive(Clone, Copy, Debug, PartialEq, Eq)]
pub struct Delivery {
    pub port_id: usize,
    pub packet: PortPacket,
}

/// A state `state` satisfies a binding when they share at least one set bit.
pub open spec fn satisfied(b: Binding, state: Signal) -> bool {
    (b.mask.bits & state.bits) != 0
}

/// The packet a binding synthesizes on the transition to `state`: the bound
/// key, a success status, and a snapshot of the state at that moment.
pub open spec fn fired_packet(b: Binding, state: Signal) -> PortPacket {
    PortPacket { key: b.key, status: ZxError::OK, data: PortPacketPayload::Signal(state) }
}

/// The packet a binding resolves to when its object is torn down before the
/// mask is satisfied: the bound key, a cancellation status, and the state at
/// teardown.
pub open spec fn canceled_packet(b: Binding, state: Signal) -> PortPacket {
    PortPacket { key: b.key, status: ZxError::CANCELED, data: PortPacketPayload::Signal(state) }
}

/// The deliveries owed by the bindings of `bs` that `state` satisfies, in
/// registration order.
pub open spec fn fired_deliveries(bs: Seq<Binding>, state: Signal) -> Seq<Delivery>
    decreases bs.len(),
{
    if bs.len() == 0 {
        Seq::empty()
    } else {
        let rest = fired_deliveries(bs.drop_last(), state);
        if satisfied(bs.last(), state) {
            rest.push(Delivery { port_id: bs.last().port_id, packet: fired_packet(bs.last(), state) })
        } else {
            rest
        }
    }
}

/// The bindings of `bs` that `state` does not satisfy, in registration order.
pub open spec fn kept_bindings(bs: Seq<Binding>, state: Signal) -> Seq<Binding>
    decreases bs.len(),
{
    if bs.len() == 0 {
        Seq::empty()
    } else {
        let rest = kept_bindings(bs.drop_last(), state);
        if satisfied(bs.last(), state) {
            rest
        } else {
            rest.push(bs.last())
        }
    }
}

/// The terminal deliveries owed at teardown: one cancellation packet for
/// every outstanding binding, in registration order.
pub open spec fn canceled_deliveries(bs: Seq<Binding>, state: Signal) -> Seq<Delivery>
    decreases bs.len(),
{
    if bs.len() == 0 {
        Seq::empty()
    } else {
        canceled_deliveries(bs.drop_last(), state).push(
            Delivery { port_id: bs.last().port_id, packet: canceled_packet(bs.last(), state) },
        )
    }
}

/// The base of every signal-bearing object: the current signal bitmask and
/// the outstanding one-shot port bindings. The two are one unit of
/// exclusive-access state, so a transition and the firings it causes are
/// atomic to any observer.
pub struct KObjectBase {
    signals: Signal,
    bindings: Vec<Binding>,
}

impl KObjectBase {
    /// The current signal bitmask.
    pub closed spec fn signal_state(self) -> Signal {
        self.signals
    }

    /// The outstanding bindings, in registration order.
    pub closed spec fn bindings_spec(self) -> Seq<Binding> {
        self.bindings@
    }

    /// A fresh object: no signal set, no binding outstanding.
    pub fn new() -> (o: KObjectBase)
        ensures
            o.signal_state().bits == 0u32,
            o.bindings_spec() =~= Seq::<Binding>::empty(),
    {
        KObjectBase { signals: Signal { bits: 0 }, bindings: Vec::new() }
    }

    /// The current signal bitmask, as a value.
    pub fn current_signals(&self) -> (s: Signal)
        ensures
            s == self.signal_state(),
    {
        self.signals
    }

    /// Poll this object's state against a mask: the non-suspending half of a
    /// wait. Returns a snapshot of the current state exactly when some bit of
    /// `mask` is set; a waiter that gets `None` suspends and is woken by the
    /// `signal_set` that makes the mask satisfied.
    pub fn signal_poll(&self, mask: Signal) -> (r: Option<Signal>)
        ensures
            ((self.signal_state().bits & mask.bits) != 0) ==> r == Some(self.signal_state()),
            ((self.signal_state().bits & mask.bits) == 0) ==> r is None,
    {
        if self.signals.intersects(mask) {
            Some(self.signals)
        } else {
            None
        }
    }

    /// Register a one-shot binding: on the first transition that satisfies
    /// `mask`, one packet with key `key` is owed to the port in slot
    /// `port_id`. Registration alone changes no signal and fires nothing.
    pub fn bind(&mut self, mask: Signal, port_id: usize, key: u64)
        ensures
            final(self).signal_state() == old(self).signal_state(),
            final(self).bindings_spec() =~= old(self).bindings_spec().push(
                Binding { mask, port_id, key },
            ),
    {
        self.bindings.push(Binding { mask, port_id, key });
    }

    /// OR bits into the state. Every binding the new state satisfies is
    /// consumed and returns exactly one success delivery carrying the
    /// post-transition snapshot, in registration order; the rest stay armed.
    pub fn signal_set(&mut self, mask: Signal) -> (fired: Vec<Delivery>)
        ensures
            final(self).signal_state().bits == (old(self).signal_state().bits | mask.bits),
            fired@ =~= fired_deliveries(old(self).bindings_spec(), final(self).signal_state()),
            final(self).bindings_spec() =~= kept_bindings(
                old(self).bindings_spec(),
                final(self).signal_state(),
            ),
    {
        let state = self.signals.union(mask);
        self.signals = state;
        let mut fired: Vec<Delivery> = Vec::new();
        let mut kept: Vec<Binding> = Vec::new();
        let n = self.bindings.len();
        let mut i: usize = 0;
        while i < n
            invariant
                i <= n,
                n == self.bindings.len(),
                self.bindings@ == old(self).bindings_spec(),
                self.signals == state,
                fired@ =~= fired_deliveries(self.bindings@.take(i as int), state),
                kept@ =~= kept_bindings(self.bindings@.take(i as int), state),
            decreases n - i,
        {
            let b = self.bindings[i];
            if b.mask.intersects(state) {
                fired.push(Delivery { port_id: b.port_id, packet: PortPacket {
                    key: b.key,
                    status: ZxError::OK,
                    data: PortPacketPayload::Signal(state),
                } });
            } else {
                kept.push(b);
            }
            proof {
                assert(self.bindings@.take(i + 1 as int).drop_last() =~= self.bindings@.take(
                    i as int,
                ));
                assert(self.bindings@.take(i + 1 as int).last() == self.bindings@[i as int]);
            }
            i += 1;
        }
        proof {
            assert(self.bindings@.take(n as int) =~= self.bindings@);
        }
        self.bindings = kept;
        fired
    }

    /// AND bits out of the state. Clearing can satisfy no wait and no
    /// binding, so nothing is woken and nothing fires.
    pub fn signal_clear(&mut self, mask: Signal)
        ensures
            final(self).signal_state().bits == (old(self).signal_state().bits & !mask.bits),
            final(self).bindings_spec() =~= old(self).bindings_spec(),
    {
        self.signals = self.signals.remove(mask);
    }

    /// Tear the object down. Every outstanding binding still resolves: it is
    /// consumed and returns one terminal delivery with a cancellation status,
    /// so a waiter on the bound port is never left without a notification.
    pub fn on_destroy(&mut self) -> (fired: Vec<Delivery>)
        ensures
            final(self).signal_state() == old(self).signal_state(),
            final(self).bindings_spec() =~= Seq::<Binding>::empty(),
            fired@ =~= canceled_deliveries(old(self).bindings_spec(), old(self).signal_state()),
    {
        let state = self.signals;
        let mut fired: Vec<Delivery> = Vec::new();
        let n = self.bindings.len();
        let mut i: usize = 0;
        while i < n
            invariant
                i <= n,
                n == self.bindings.len(),
                self.bindings@ == old(self).bindings_spec(),
                self.signals == state,
                state == old(self).signal_state(),
                fired@ =~= canceled_deliveries(self.bindings@.take(i as int), state),
            decreases n - i,
        {
            let b = self.bindings[i];
            fired.push(Delivery { port_id: b.port_id, packet: PortPacket {
                key: b.key,
                status: ZxError::CANCELED,
                data: PortPacketPayload::Signal(state),
            } });
            proof {
                assert(self.bindings@.take(i + 1 as int).drop_last() =~= self.bindings@.take(
                    i as int,
                ));
                assert(self.bindings@.take(i + 1 as int).last() == self.bindings@[i as int]);
            }
            i += 1;
        }
        proof {
            assert(self.bindings@.take(n as int) =~= self.bindings@);
        }
        self.bindings = Vec::new();
        fired
    }
}

/// The packets of `ds` owed to the port in slot `j`, in delivery order.
pub open spec fn routed_to(ds: Seq<Delivery>, j: int) -> Seq<PortPacket>
    decreases ds.len(),
{
    if ds.len() == 0 {
        Seq::empty()
    } else {
        let rest = routed_to(ds.drop_last(), j);
        if ds.last().port_id == j {
            rest.push(ds.last().packet)
        } else {
            rest
        }
    }
}

/// Route a batch of deliveries into a slot table of ports: each delivery is
/// pushed into the port its slot names, in delivery order. Every port's
/// queue is extended by exactly the packets owed to it, and every port's
/// readable bit again tracks non-emptiness.
pub fn deliver_all(ports: &mut Vec<Port>, deliveries: &Vec<Delivery>)
    requires
        forall|k: int| 0 <= k < old(ports)@.len() ==> old(ports)@[k].wf(),
        forall|k: int| 0 <= k < deliveries@.len() ==> deliveries@[k].port_id < old(ports)@.len(),
    ensures
        final(ports)@.len() == old(ports)@.len(),
        forall|j: int|
            0 <= j < old(ports)@.len() ==> final(ports)@[j].wf() && final(ports)@[j].packets()
                =~= old(ports)@[j].packets() + routed_to(deliveries@, j),
{
    let n = deliveries.len();
    let mut i: usize = 0;
    while i < n
        invariant
            i <= n,
            n == deliveries@.len(),
            ports@.len() == old(ports)@.len(),
            forall|k: int| 0 <= k < deliveries@.len() ==> deliveries@[k].port_id < ports@.len(),
            forall|j: int|
                0 <= j < ports@.len() ==> ports@[j].wf() && ports@[j].packets() =~= old(
                    ports,
                )@[j].packets() + routed_to(deliveries@.take(i as int), j),
        decreases n - i,
    {
        let d = deliveries[i];
        let ghost ports_before = ports@;
        let p = &mut ports[d.port_id];
        p.push(d.packet);
        proof {
            assert(deliveries@.take(i + 1 as int).drop_last() =~= deliveries@.take(i as int));
            assert(deliveries@.take(i + 1 as int).last() == deliveries@[i as int]);
            assert forall|j: int| 0 <= j < ports@.len() implies ports@[j].wf() && ports@[j].packets()
                =~= old(ports)@[j].packets() + routed_to(deliveries@.take(i + 1 as int), j) by {
                if j != d.port_id {
                    assert(ports@[j] == ports_before[j]);
                }
            }
        }
        i += 1;
    }
    proof {
        assert(deliveries@.take(n as int) =~= deliveries@);
    }
}

} // verus!
