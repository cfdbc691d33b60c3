//! The session layer of MoQ Transfork, apart from its input and output.
//!
//! A session publishes tracks and subscribes to the tracks of its peer. What it decides stands
//! here: the handshake ([`session`]), which tracks are announced and where a requested one comes
//! from ([`publisher`], [`announced`]), how a subscription is served ([`serving`]) and received
//! ([`subscriber`]), how a group is cut into frames and put together again ([`group`]), and how a
//! message goes out ([`writer`]). The caller reads and writes the streams, hands in what arrived,
//! and does what it is told.

pub mod announced;
pub mod buffer;
pub mod error;
pub mod group;
pub mod laws;
pub mod message;
pub mod path;
pub mod path_map;
pub mod publisher;
pub mod serving;
pub mod session;
pub mod subscriber;
pub mod writer;
