//! The port's delivery guarantees, stated and proved over its linearized
//! history.
//!
//! Every operation on a port happens in one exclusive-access window, so any
//! concurrent run of producers and one consumer is equivalent to some serial
//! sequence of events. An event is one completed exclusive-access section:
//! [`PortEvent::Push`] stands for one [`crate::port::Port::push`] (append
//! one packet, set the readable bit), and [`PortEvent::Drain`] for one poll
//! of [`crate::port::Port::try_drain`] (take the whole queue and clear the
//! bit when readable, change nothing otherwise). The run functions below
//! replay such a history from an empty port exactly as those contracts
//! describe, and the proof functions state what every history guarantees.

use vstd::prelude::*;
use crate::object::{Binding, Delivery, fired_deliveries, kept_bindings, satisfied};
use crate::packet::PortPacket;
use crate::signal::Signal;

verus! {

/// One completed exclusive-access section in a port's linearized history.
pub enum PortEvent {
    /// A producer appended this packet and set the readable bit.
    Push(PortPacket),
    /// A consumer polled the drain: it took the whole queue if the port was
    /// readable, and changed nothing otherwise.
    Drain,
}

/// The packets pushed over a history, in push order.
pub open spec fn pushes_of(events: Seq<PortEvent>) -> Seq<PortPacket>
    decreases events.len(),
{
    if events.len() == 0 {
        Seq::empty()
    } else {
        let rest = pushes_of(events.drop_last());
        match events.last() {
            PortEvent::Push(p) => rest.push(p),
            PortEvent::Drain => rest,
        }
    }
}

/// The queue contents after replaying a history from an empty port.
pub open spec fn run_queue(events: Seq<PortEvent>) -> Seq<PortPacket>
    decreases events.len(),
{
    if events.len() == 0 {
        Seq::empty()
    } else {
        let q = run_queue(events.drop_last());
        match events.last() {
            PortEvent::Push(p) => q.push(p),
            PortEvent::Drain => if q.len() > 0 {
                Seq::empty()
            } else {
                q
            },
        }
    }
}

/// The readable bit after replaying a history: set exactly when the queue
/// is non-empty (the port invariant).
pub open spec fn run_readable(events: Seq<PortEvent>) -> bool {
    run_queue(events).len() > 0
}

/// The batches the drains of a history returned, in drain order. A drain
/// that found the port unreadable returned no batch: its caller stayed
/// suspended.
pub open spec fn run_batches(events: Seq<PortEvent>) -> Seq<Seq<PortPacket>>
    decreases events.len(),
{
    if events.len() == 0 {
        Seq::empty()
    } else {
        let q = run_queue(events.drop_last());
        let bs = run_batches(events.drop_last());
        match events.last() {
            PortEvent::Push(_) => bs,
            PortEvent::Drain => if q.len() > 0 {
                bs.push(q)
            } else {
                bs
            },
        }
    }
}

/// All batches of a history laid end to end, in drain order.
pub open spec fn concat_batches(bs: Seq<Seq<PortPacket>>) -> Seq<PortPacket>
    decreases bs.len(),
{
    if bs.len() == 0 {
        Seq::empty()
    } else {
        concat_batches(bs.drop_last()) + bs.last()
    }
}

proof fn lemma_run_all_pushes(events: Seq<PortEvent>)
    requires
        forall|k: int| 0 <= k < events.len() ==> (#[trigger] events[k]) matches PortEvent::Push(_),
    ensures
        run_queue(events) =~= pushes_of(events),
        run_batches(events) =~= Seq::<Seq<PortPacket>>::empty(),
        pushes_of(events).len() == events.len(),
    decreases events.len(),
{
    if events.len() > 0 {
        assert forall|k: int|
            0 <= k < events.drop_last().len() implies (#[trigger] events.drop_last()[k]) matches PortEvent::Push(
            _,
        ) by {
            assert(events.drop_last()[k] == events[k]);
        }
        lemma_run_all_pushes(events.drop_last());
        assert(events.last() matches PortEvent::Push(_));
    }
}

/// FIFO delivery: after one or more packets are pushed, in order, with no
/// drain in between, the next drain returns them all as one batch, in
/// exactly that push order, and it is the only batch of the history.
pub proof fn lemma_fifo_order(events: Seq<PortEvent>)
    requires
        events.len() >= 1,
        forall|k: int| 0 <= k < events.len() ==> (#[trigger] events[k]) matches PortEvent::Push(_),
    ensures
        pushes_of(events).len() == events.len(),
        run_batches(events.push(PortEvent::Drain)) =~= seq![pushes_of(events)],
        run_queue(events.push(PortEvent::Drain)) =~= Seq::<PortPacket>::empty(),
{
    lemma_run_all_pushes(events);
    assert(events.push(PortEvent::Drain).drop_last() =~= events);
}

/// No empty batch: every batch any drain of any history ever returned holds
/// at least one packet. A drain that found the queue empty returned no
/// batch at all: its caller suspended until a push set the readable bit.
pub proof fn lemma_batches_nonempty(events: Seq<PortEvent>)
    ensures
        forall|k: int| 0 <= k < run_batches(events).len() ==> run_batches(events)[k].len() > 0,
    decreases events.len(),
{
    if events.len() > 0 {
        lemma_batches_nonempty(events.drop_last());
        let q = run_queue(events.drop_last());
        let bs = run_batches(events.drop_last());
        match events.last() {
            PortEvent::Push(_) => {},
            PortEvent::Drain => {
                if q.len() > 0 {
                    assert(run_batches(events) == bs.push(q));
                    assert forall|k: int|
                        0 <= k < run_batches(events).len() implies run_batches(events)[k].len()
                        > 0 by {
                        if k < bs.len() {
                            assert(run_batches(events)[k] == bs[k]);
                        } else {
                            assert(run_batches(events)[k] == q);
                        }
                    }
                }
            },
        }
    }
}

/// No loss, no duplication: over any interleaving of pushes and drains, the
/// packets returned by all drains, concatenated in drain order, followed by
/// the packets still queued, are exactly the pushed packets in push order.
/// Every pushed packet is therefore delivered in exactly one batch, once,
/// or still awaits its drain.
pub proof fn lemma_no_loss_no_duplication(events: Seq<PortEvent>)
    ensures
        concat_batches(run_batches(events)) + run_queue(events) =~= pushes_of(events),
    decreases events.len(),
{
    if events.len() > 0 {
        lemma_no_loss_no_duplication(events.drop_last());
        let q = run_queue(events.drop_last());
        let bs = run_batches(events.drop_last());
        match events.last() {
            PortEvent::Push(p) => {
                assert(concat_batches(bs) + q.push(p) =~= (concat_batches(bs) + q).push(p));
            },
            PortEvent::Drain => {
                if q.len() > 0 {
                    assert(bs.push(q).drop_last() =~= bs);
                    assert(concat_batches(bs.push(q)) == concat_batches(bs.push(q).drop_last())
                        + bs.push(q).last());
                    assert(concat_batches(bs.push(q)) + run_queue(events) =~= concat_batches(bs)
                        + q);
                }
            },
        }
    }
}

/// Drain resets the signal: immediately after a drain the readable bit is
/// clear and the queue is empty; the very next push sets the bit again.
pub proof fn lemma_drain_clears_readable(events: Seq<PortEvent>, p: PortPacket)
    ensures
        !run_readable(events.push(PortEvent::Drain)),
        run_queue(events.push(PortEvent::Drain)) =~= Seq::<PortPacket>::empty(),
        run_readable(events.push(PortEvent::Drain).push(PortEvent::Push(p))),
{
    let after = events.push(PortEvent::Drain);
    assert(after.drop_last() =~= events);
    assert(after.push(PortEvent::Push(p)).drop_last() =~= after);
}

/// Cancellation: a wait abandoned before the port became readable consumed
/// nothing. Modelled as the drain poll of an unreadable port, it leaves the
/// queue, the readable bit and the batches already delivered exactly as
/// they were, so any later drain behaves as if it had never happened.
pub proof fn lemma_cancel_is_no_op(events: Seq<PortEvent>)
    requires
        run_queue(events).len() == 0,
    ensures
        run_queue(events.push(PortEvent::Drain)) =~= run_queue(events),
        run_batches(events.push(PortEvent::Drain)) =~= run_batches(events),
        run_readable(events.push(PortEvent::Drain)) == run_readable(events),
{
    assert(events.push(PortEvent::Drain).drop_last() =~= events);
}

proof fn lemma_kept_unsatisfied(bs: Seq<Binding>, state: Signal)
    ensures
        forall|k: int|
            0 <= k < kept_bindings(bs, state).len() ==> !satisfied(kept_bindings(bs, state)[k], state),
    decreases bs.len(),
{
    if bs.len() > 0 {
        lemma_kept_unsatisfied(bs.drop_last(), state);
        let rest = kept_bindings(bs.drop_last(), state);
        if !satisfied(bs.last(), state) {
            assert forall|k: int|
                0 <= k < kept_bindings(bs, state).len() implies !satisfied(
                kept_bindings(bs, state)[k],
                state,
            ) by {
                if k < rest.len() {
                    assert(kept_bindings(bs, state)[k] == rest[k]);
                } else {
                    assert(kept_bindings(bs, state)[k] == bs.last());
                }
            }
        }
    }
}

proof fn lemma_unsatisfied_fire_nothing(bs: Seq<Binding>, state: Signal)
    requires
        forall|k: int| 0 <= k < bs.len() ==> !satisfied(bs[k], state),
    ensures
        fired_deliveries(bs, state) =~= Seq::<Delivery>::empty(),
    decreases bs.len(),
{
    if bs.len() > 0 {
        assert forall|k: int| 0 <= k < bs.drop_last().len() implies !satisfied(
            bs.drop_last()[k],
            state,
        ) by {
            assert(bs.drop_last()[k] == bs[k]);
        }
        lemma_unsatisfied_fire_nothing(bs.drop_last(), state);
        assert(!satisfied(bs.last(), state));
    }
}

/// One-shot bindings: the bindings an object keeps after a transition are
/// exactly those the new state does not satisfy, so replaying that same
/// state over the kept bindings fires nothing further. Each binding
/// produces at most one packet.
pub proof fn lemma_one_shot(bs: Seq<Binding>, state: Signal)
    ensures
        fired_deliveries(kept_bindings(bs, state), state) =~= Seq::<Delivery>::empty(),
{
    lemma_kept_unsatisfied(bs, state);
    lemma_unsatisfied_fire_nothing(kept_bindings(bs, state), state);
}

} // verus!
