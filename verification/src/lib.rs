//! Protocol engine of a TURN relay and of its client.
//!
//! The engine does no I/O. Its surroundings hand it the datagrams they read
//! and the time, and carry out the actions it returns: send a datagram,
//! relay a payload, release a relay address.
//!
//! - `wire`, `address`, `attribute`, `message`, `lookup`, `channel`: the STUN
//!   and ChannelData formats, with the proof that what is written reads back.
//! - `digest`, `integrity`, `nonce`: the long-term-credential mechanism.
//! - `assoc`, `allocation`, `table`: allocations, permissions and channel
//!   bindings, and their expiry.
//! - `engine`, `request`, `server`: what the relay makes of each datagram.
//! - `requested_transport`, `client`: the client's side of an allocation.

pub mod error;
pub mod wire;
pub mod address;
pub mod attribute;
pub mod message;
pub mod lookup;
pub mod channel;
pub mod digest;
pub mod integrity;
pub mod nonce;
pub mod assoc;
pub mod allocation;
pub mod table;
pub mod requested_transport;
pub mod engine;
pub mod request;
pub mod server;
pub mod client;
