//! Where the service is found on the network, and the message type that
//! travels over a session.

pub use crate::network_message::NetworkMessage;
use vstd::prelude::*;

verus! {

/// The multicast group on which servers listen for pings.
pub const MULTICAST_ADDRESS: &'static str = "233.141.56.26";

/// The port of the multicast group.
pub const MULTICAST_PORT: u16 = 5358;

} // verus!
