//! Media-over-QUIC transport core: session handshake, control and data
//! codecs, the serve tree (broadcast/track/group/object cache with
//! writer/reader split), and the relay origin registry.
//!
//! Everything here is transport-agnostic: the functions compute over plain
//! values (byte vectors, integers, the library's own types). Opening QUIC or
//! WebTransport streams, reading and writing bytes, and task scheduling are
//! the caller's job; the caller feeds received bytes and events in and sends
//! the returned bytes and messages out.

pub mod broadcast;
pub mod coding;
pub mod data;
pub mod error;
pub mod group;
pub mod message;
pub mod object;
pub mod publisher;
pub mod relay;
pub mod session;
pub mod setup;
pub mod stream;
pub mod subscriber;
pub mod track;
pub mod util;
pub mod varint;
pub mod watch;
