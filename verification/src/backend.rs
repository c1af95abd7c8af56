//! The backend traits, to connect a client to some server.
use vstd::prelude::*;

pub mod mock;

verus! {

/// Something that can be handed bytes to send out.
pub trait BackendSender: Sized {
    /// A message that is being sent.
    type Sending;

    /// Send a message to the JSON-RPC server. The message is a JSON-RPC object.
    fn send(&self, data: &[u8]) -> Self::Sending;
}

/// Something that can receive bytes.
pub trait BackendReceiver: Sized {
    /// A message that is being waited for.
    type Receiving;

    /// Ask for the next message each time it's called. What comes of it is the bytes of a
    /// JSON-RPC object, or an error, or nothing once the connection has been closed. After
    /// an error no more messages are asked for.
    fn receive(&self) -> Self::Receiving;
}

} // verus!
