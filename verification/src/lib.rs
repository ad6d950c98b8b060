//! Server-side websocket connection multiplexer.
//!
//! The crate keeps a registry of live client connections, routes messages
//! between per-client outbound queues and a single application-facing inbound
//! queue, and drives the per-connection lifecycle state machine. The wire
//! protocol itself (handshake, frame encoding) is left to the transport layer
//! that drives this crate.

use vstd::prelude::*;

pub mod client_list;
pub mod events;
pub mod handler;
pub mod history;
pub mod plugin;

verus! {

/// Mathematical value of a [`Message`]: the payload as a sequence of
/// characters or bytes.
pub enum MessageView {
    Text(Seq<char>),
    Binary(Seq<u8>),
}

/// An application-level message, either text (strings, json, ...) or raw
/// binary data. Immutable once built; cloned cheaply for broadcast.
pub enum Message {
    /// String data, such as plain text or json.
    Text(String),
    /// Binary data, for less overhead.
    Binary(Vec<u8>),
}

impl View for Message {
    type V = MessageView;

    open spec fn view(&self) -> MessageView {
        match self {
            Message::Text(s) => MessageView::Text(s@),
            Message::Binary(b) => MessageView::Binary(b@),
        }
    }
}

impl Clone for Message {
    fn clone(&self) -> (r: Self)
        ensures
            r@ == self@,
    {
        match self {
            Message::Text(s) => Message::Text(s.clone()),
            Message::Binary(b) => Message::Binary(b.clone()),
        }
    }
}

/// Mathematical value of a [`WireFrame`].
pub enum WireFrameView {
    Text(Seq<char>),
    Binary(Seq<u8>),
    Close,
    Ping(Seq<u8>),
    Pong(Seq<u8>),
}

/// One complete frame as the transport protocol delineates it, after
/// decoding. Mirrors the frame kinds of the wire protocol; the transport
/// layer converts its own decoded frame type into this one before handing it
/// to the multiplexer.
pub enum WireFrame {
    /// A text frame.
    Text(String),
    /// A binary frame.
    Binary(Vec<u8>),
    /// A close frame; any attached close data is irrelevant here and dropped
    /// by the transport layer.
    Close,
    /// A ping control frame.
    Ping(Vec<u8>),
    /// A pong control frame.
    Pong(Vec<u8>),
}

impl View for WireFrame {
    type V = WireFrameView;

    open spec fn view(&self) -> WireFrameView {
        match self {
            WireFrame::Text(s) => WireFrameView::Text(s@),
            WireFrame::Binary(b) => WireFrameView::Binary(b@),
            WireFrame::Close => WireFrameView::Close,
            WireFrame::Ping(b) => WireFrameView::Ping(b@),
            WireFrame::Pong(b) => WireFrameView::Pong(b@),
        }
    }
}

impl Message {
    /// Converts a decoded frame into an application message. Control frames
    /// carry no application payload; they come out as a fixed marker text,
    /// as callers are expected to have routed them elsewhere already.
    pub fn from_frame(frame: WireFrame) -> (r: Message)
        ensures
            match frame@ {
                WireFrameView::Text(t) => r@ == MessageView::Text(t),
                WireFrameView::Binary(b) => r@ == MessageView::Binary(b),
                _ => r@ == MessageView::Text("unsuported type"@),
            },
    {
        match frame {
            WireFrame::Text(txt) => Message::Text(txt),
            WireFrame::Binary(bin) => Message::Binary(bin),
            _ => Message::Text("unsuported type".to_owned()),
        }
    }
}

impl From<Message> for WireFrame {
    /// Wraps an application message back into the frame the transport layer
    /// encodes and sends.
    fn from(message: Message) -> (r: WireFrame) {
        match message {
            Message::Text(txt) => WireFrame::Text(txt),
            Message::Binary(bin) => WireFrame::Binary(bin),
        }
    }
}

impl vstd::std_specs::convert::FromSpecImpl<Message> for WireFrame {
    open spec fn obeys_from_spec() -> bool {
        true
    }

    open spec fn from_spec(message: Message) -> WireFrame {
        match message {
            Message::Text(txt) => WireFrame::Text(txt),
            Message::Binary(bin) => WireFrame::Binary(bin),
        }
    }
}

} // verus!
