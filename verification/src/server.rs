//! The decisions of the server: who is registered, what each event makes
//! the server send and to whom, and how a connection becomes a session.
//!
//! Nothing here touches a socket. The caller reads and writes, keeps the
//! stream handles by session id, and hands bytes and events to these
//! functions in the order in which they arrived.

pub mod admission;
pub mod dispatcher;
pub mod registry;
pub mod responder;
pub mod session;
