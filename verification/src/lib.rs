//! Wire protocol and server engine of a LAN chat service.
//!
//! Peers find a server by multicast discovery, connect over a byte stream and
//! exchange tagged binary frames that the server relays to every connected
//! peer. This crate holds the codecs for both message families, the
//! decisions of the server (who is registered, who is told what, and when a
//! connection is admitted or dropped) and what a client keeps of a session.
//! Sockets, threads, queues and windows are left to the caller.

pub mod client;
pub mod multicast;
pub mod network;
pub mod network_message;
pub mod server;
pub mod wire;
