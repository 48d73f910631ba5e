//! Packets: the immutable records a port delivers.

use vstd::prelude::*;
use crate::signal::Signal;

verus! {

/// The outcome attached to a packet: why this packet exists.
#[derive(Clone, Copy, Debug, PartialEq, Eq, Structural)]
pub enum ZxError {
    /// The event this packet reports happened normally.
    OK,
    /// The binding that would have produced a packet was torn down before its
    /// mask was satisfied (for example, the bound object was destroyed).
    CANCELED,
}

/// The payload of a packet.
///
/// Marked non-exhaustive: consumers must not assume these are the only
/// variants a packet can ever carry.
#[non_exhaustive]
#[derive(Clone, Copy, Debug, PartialEq, Eq)]
pub enum PortPacketPayload {
    /// A snapshot of a signal-bearing object's state, taken at the
    /// transition that satisfied a binding's mask.
    Signal(Signal),
    /// An opaque block of application data, pushed explicitly.
    User([u8; 32]),
}

/// An immutable record delivered through a port: a caller-chosen correlation
/// key, a status, and a payload. Keys are not assumed unique; a packet has no
/// identity beyond its position in the queue.
#[derive(Clone, Copy, Debug, PartialEq, Eq)]
pub struct PortPacket {
    pub key: u64,
    pub status: ZxError,
    pub data: PortPacketPayload,
}

} // verus!
