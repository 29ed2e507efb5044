//! A connected client as the engine sees it.
//!
//! Transport and session management live outside the core: a client
//! here is an identifier, a recipient handle the outer layer uses to
//! address outbound packets, and the world the client has joined.

use vstd::prelude::*;

verus! {

/// An opaque handle naming the transport session that outbound
/// packets for a client are addressed to. Delivery itself is the
/// outer layer's concern; the core only stores and returns it.
#[derive(Clone, Copy, Debug, PartialEq, Eq, Hash, Structural)]
pub struct MessageRecipient {
    pub handle: u64,
}

/// One connected client.
pub struct Client {
    pub id: String,
    pub recipient: MessageRecipient,
    pub world: Option<String>,
}

impl Client {
    /// A freshly connected client: not yet in any world.
    pub fn new(id: String, recipient: MessageRecipient) -> (c: Self)
        ensures
            c.id@ == id@,
            c.recipient == recipient,
            c.world is None,
    {
        Self { id, recipient, world: None }
    }
}

} // verus!
