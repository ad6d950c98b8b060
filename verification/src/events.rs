//! Events the multiplexer surfaces to the application.

use vstd::prelude::*;
use crate::{Message, MessageView};

verus! {

/// A connection lifecycle notification: a client connected or disconnected.
/// Emitted in the order the transitions happened; a record is inserted into
/// the registry before its `Connected` event is emitted, and removed before
/// its `Disconnected` event is emitted.
#[derive(Clone, Copy, PartialEq, Eq, Structural, Debug)]
pub enum LifecycleEvent {
    /// A new client connected, carrying its identifier.
    Connected(u64),
    /// A client disconnected, carrying its identifier.
    Disconnected(u64),
}

/// An inbound message: the identifier of the client that sent it, and the
/// payload.
pub struct ServerMessageEvent(pub u64, pub Message);

impl View for ServerMessageEvent {
    type V = (u64, MessageView);

    open spec fn view(&self) -> (u64, MessageView) {
        (self.0, self.1@)
    }
}

} // verus!
