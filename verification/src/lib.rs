//! A port-style notification and mailbox primitive.
//!
//! A [`port::Port`] is an ordered mailbox of [`packet::PortPacket`]s whose
//! "readable" signal bit is set exactly when the queue is non-empty.
//! Producers enqueue packets explicitly, or indirectly through one-shot
//! bindings that turn a signal transition on some other object into a packet
//! (see [`object::KObjectBase`]).

pub mod laws;
pub mod object;
pub mod packet;
pub mod port;
pub mod signal;
