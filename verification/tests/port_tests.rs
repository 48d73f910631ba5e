use zircon_object::object::KObjectBase;
use zircon_object::packet::{PortPacket, PortPacketPayload, ZxError};
use zircon_object::port::Port;
use zircon_object::signal::{Signal, READABLE, WRITABLE};

fn drain(port: &mut Port) -> Vec<PortPacket> {
    port.try_drain().expect("port should have been readable")
}

#[test]
fn wait_async() {
    let mut ports = vec![Port::new()];
    let mut object = KObjectBase::new();
    object.bind(Signal { bits: READABLE }, 0, 1);

    let fired = object.signal_set(Signal { bits: READABLE });
    zircon_object::object::deliver_all(&mut ports, &fired);

    let packets = drain(&mut ports[0]);
    assert_eq!(
        packets,
        [PortPacket {
            key: 1,
            status: ZxError::OK,
            data: PortPacketPayload::Signal(Signal { bits: READABLE }),
        }]
    );

    ports[0].push(PortPacket {
        key: 2,
        status: ZxError::OK,
        data: PortPacketPayload::Signal(Signal { bits: WRITABLE }),
    });

    let packets = drain(&mut ports[0]);
    assert_eq!(
        packets,
        [PortPacket {
            key: 2,
            status: ZxError::OK,
            data: PortPacketPayload::Signal(Signal { bits: WRITABLE }),
        }]
    );
}

fn user_packet(key: u64, byte: u8) -> PortPacket {
    PortPacket { key, status: ZxError::OK, data: PortPacketPayload::User([byte; 32]) }
}

#[test]
fn fifo_order_batch() {
    let mut port = Port::new();
    let p1 = user_packet(1, 0xa);
    let p2 = user_packet(2, 0xb);
    let p3 = user_packet(3, 0xc);
    port.push(p1);
    port.push(p2);
    port.push(p3);
    assert_eq!(drain(&mut port), vec![p1, p2, p3]);
}

#[test]
fn empty_port_does_not_drain() {
    let mut port = Port::new();
    // The wait decision on an empty port: no batch; the caller suspends.
    assert!(port.try_drain().is_none());
    assert!(!port.readable());
    assert_eq!(port.packet_count(), 0);
}

#[test]
fn drain_clears_readable_and_push_sets_it() {
    let mut port = Port::new();
    port.push(user_packet(7, 1));
    assert!(port.readable());
    let batch = drain(&mut port);
    assert_eq!(batch.len(), 1);
    assert!(!port.readable());
    assert_eq!(port.packet_count(), 0);
    port.push(user_packet(8, 2));
    assert!(port.readable());
}

#[test]
fn no_loss_no_duplication_across_drains() {
    let mut port = Port::new();
    let packets: Vec<PortPacket> = (0..6u64).map(|k| user_packet(k, k as u8)).collect();
    let mut delivered: Vec<PortPacket> = Vec::new();

    port.push(packets[0]);
    port.push(packets[1]);
    delivered.extend(drain(&mut port));
    port.push(packets[2]);
    delivered.extend(drain(&mut port));
    port.push(packets[3]);
    port.push(packets[4]);
    port.push(packets[5]);
    delivered.extend(drain(&mut port));

    assert_eq!(delivered, packets);
}

#[test]
fn cancelled_wait_changes_nothing() {
    let mut port = Port::new();
    port.push(user_packet(1, 1));
    let before_count = port.packet_count();
    let was_readable = port.readable();

    // An abandoned wait on a second, empty port: the unsuccessful poll is
    // the only state the wait ever touched, and it changed nothing.
    let mut other = Port::new();
    assert!(other.try_drain().is_none());
    assert!(other.try_drain().is_none());
    assert_eq!(other.packet_count(), 0);
    assert!(!other.readable());

    // A fresh drain on the first port behaves as if nothing intervened.
    assert_eq!(port.packet_count(), before_count);
    assert_eq!(port.readable(), was_readable);
    assert_eq!(drain(&mut port), vec![user_packet(1, 1)]);
}

#[test]
fn scenario_bind_then_user_packet() {
    let mut ports = vec![Port::new()];
    let mut object = KObjectBase::new();
    object.bind(Signal { bits: READABLE }, 0, 1);

    let fired = object.signal_set(Signal { bits: READABLE });
    zircon_object::object::deliver_all(&mut ports, &fired);
    assert_eq!(
        drain(&mut ports[0]),
        vec![PortPacket {
            key: 1,
            status: ZxError::OK,
            data: PortPacketPayload::Signal(Signal { bits: READABLE }),
        }]
    );

    let blob = [0x5au8; 32];
    ports[0].push(PortPacket { key: 2, status: ZxError::OK, data: PortPacketPayload::User(blob) });
    assert_eq!(
        drain(&mut ports[0]),
        vec![PortPacket { key: 2, status: ZxError::OK, data: PortPacketPayload::User(blob) }]
    );
}

#[test]
fn scenario_three_keys_one_batch() {
    let mut port = Port::new();
    port.push(user_packet(5, 5));
    port.push(user_packet(6, 6));
    port.push(user_packet(7, 7));
    let keys: Vec<u64> = drain(&mut port).iter().map(|p| p.key).collect();
    assert_eq!(keys, vec![5, 6, 7]);
    // With no new enqueue the next wait does not return: the poll says suspend.
    assert!(port.try_drain().is_none());
}

#[test]
fn binding_is_one_shot() {
    let mut ports = vec![Port::new()];
    let mut object = KObjectBase::new();
    object.bind(Signal { bits: READABLE }, 0, 9);

    let first = object.signal_set(Signal { bits: READABLE });
    assert_eq!(first.len(), 1);
    zircon_object::object::deliver_all(&mut ports, &first);

    // The same transition again: the binding was consumed, nothing fires.
    object.signal_clear(Signal { bits: READABLE });
    let second = object.signal_set(Signal { bits: READABLE });
    assert!(second.is_empty());

    assert_eq!(drain(&mut ports[0]).len(), 1);
    assert!(ports[0].try_drain().is_none());
}

#[test]
fn unsatisfied_binding_stays_armed() {
    let mut ports = vec![Port::new()];
    let mut object = KObjectBase::new();
    object.bind(Signal { bits: READABLE }, 0, 3);

    // WRITABLE does not satisfy a READABLE mask: nothing fires yet.
    let fired = object.signal_set(Signal { bits: WRITABLE });
    assert!(fired.is_empty());

    let fired = object.signal_set(Signal { bits: READABLE });
    assert_eq!(fired.len(), 1);
    zircon_object::object::deliver_all(&mut ports, &fired);
    let batch = drain(&mut ports[0]);
    assert_eq!(batch[0].key, 3);
    assert_eq!(batch[0].status, ZxError::OK);
    // The payload snapshots the whole post-transition state.
    assert_eq!(
        batch[0].data,
        PortPacketPayload::Signal(Signal { bits: READABLE | WRITABLE })
    );
}

#[test]
fn teardown_delivers_cancellation() {
    let mut ports = vec![Port::new()];
    let mut object = KObjectBase::new();
    object.bind(Signal { bits: READABLE }, 0, 4);

    let fired = object.on_destroy();
    zircon_object::object::deliver_all(&mut ports, &fired);
    assert_eq!(
        drain(&mut ports[0]),
        vec![PortPacket {
            key: 4,
            status: ZxError::CANCELED,
            data: PortPacketPayload::Signal(Signal { bits: 0 }),
        }]
    );
    // The binding is gone: a later transition fires nothing.
    assert!(object.signal_set(Signal { bits: READABLE }).is_empty());
}

#[test]
fn signal_clear_satisfies_nothing() {
    let mut object = KObjectBase::new();
    object.bind(Signal { bits: READABLE }, 0, 2);
    assert!(object.signal_set(Signal { bits: WRITABLE }).is_empty());
    // Clearing can wake no waiter and fire no binding.
    object.signal_clear(Signal { bits: WRITABLE });
    assert!(object.signal_poll(Signal { bits: WRITABLE }).is_none());
    // The READABLE binding is still armed after the clear.
    assert_eq!(object.signal_set(Signal { bits: READABLE }).len(), 1);
}

#[test]
fn signal_poll_returns_snapshot() {
    let mut object = KObjectBase::new();
    assert!(object.signal_poll(Signal { bits: READABLE }).is_none());
    object.signal_set(Signal { bits: READABLE | WRITABLE });
    assert_eq!(
        object.signal_poll(Signal { bits: READABLE }),
        Some(Signal { bits: READABLE | WRITABLE })
    );
}

#[test]
fn deliver_all_routes_by_slot() {
    let mut ports = vec![Port::new(), Port::new()];
    let mut object = KObjectBase::new();
    object.bind(Signal { bits: READABLE }, 1, 11);
    object.bind(Signal { bits: READABLE }, 0, 10);
    object.bind(Signal { bits: WRITABLE }, 1, 12);

    let fired = object.signal_set(Signal { bits: READABLE });
    assert_eq!(fired.len(), 2);
    zircon_object::object::deliver_all(&mut ports, &fired);

    let keys0: Vec<u64> = drain(&mut ports[0]).iter().map(|p| p.key).collect();
    assert_eq!(keys0, vec![10]);
    let keys1: Vec<u64> = drain(&mut ports[1]).iter().map(|p| p.key).collect();
    assert_eq!(keys1, vec![11]);

    // The WRITABLE binding on slot 1 is still armed.
    let fired = object.signal_set(Signal { bits: WRITABLE });
    assert_eq!(fired.len(), 1);
    zircon_object::object::deliver_all(&mut ports, &fired);
    let keys1: Vec<u64> = drain(&mut ports[1]).iter().map(|p| p.key).collect();
    assert_eq!(keys1, vec![12]);
}

#[test]
fn signal_mask_operations() {
    let readable = Signal { bits: READABLE };
    let writable = Signal { bits: WRITABLE };
    let both = readable.union(writable);
    assert_eq!(both, Signal { bits: READABLE | WRITABLE });
    assert!(both.intersects(readable));
    assert!(!readable.intersects(writable));
    assert_eq!(both.remove(readable), writable);
    assert!(Signal::empty().is_empty());
    assert!(!Signal::new(READABLE).is_empty());
    assert!(!Signal::empty().intersects(both));
}

#[test]
fn dropping_nonempty_port_discards_silently() {
    let mut port = Port::new();
    port.push(user_packet(1, 1));
    port.push(user_packet(2, 2));
    // A port's existence is independent of its queue: undelivered packets
    // are silently discarded with it.
    drop(port);
}

#[test]
fn packet_count_tracks_queue() {
    let mut port = Port::new();
    assert_eq!(port.packet_count(), 0);
    port.push(user_packet(1, 1));
    assert_eq!(port.packet_count(), 1);
    port.push(user_packet(2, 2));
    assert_eq!(port.packet_count(), 2);
    drain(&mut port);
    assert_eq!(port.packet_count(), 0);
}
