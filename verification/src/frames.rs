//! Frame and queue-item types exchanged with the client connection.

use vstd::prelude::*;

verus! {

/// A frame read from the client connection, already decoded.
///
/// `Unsupported` stands for any frame kind the relay does not consume;
/// `Malformed` for inbound data that could not be decoded at all.
pub enum InboundFrame {
    Text(String),
    Ping(Vec<u8>),
    Close,
    Unsupported,
    Malformed,
}

/// A frame written to the client connection.
pub enum OutboundFrame {
    Text(String),
    Pong(Vec<u8>),
}

/// The abstract value of an outbound frame.
#[verifier::ext_equal]
pub ghost enum FrameView {
    Text(Seq<char>),
    Pong(Seq<u8>),
}

impl View for OutboundFrame {
    type V = FrameView;

    open spec fn view(&self) -> FrameView {
        match self {
            OutboundFrame::Text(s) => FrameView::Text(s@),
            OutboundFrame::Pong(p) => FrameView::Pong(p@),
        }
    }
}

/// One entry of the outbound dispatcher's queue: a generated fragment, an
/// in-band error notice, or a control reply.
pub enum OutboundItem {
    Fragment(String),
    Notice(String),
    Pong(Vec<u8>),
}

/// The abstract value of an outbound queue entry.
#[verifier::ext_equal]
pub ghost enum ItemView {
    Fragment(Seq<char>),
    Notice(Seq<char>),
    Pong(Seq<u8>),
}

impl View for OutboundItem {
    type V = ItemView;

    open spec fn view(&self) -> ItemView {
        match self {
            OutboundItem::Fragment(s) => ItemView::Fragment(s@),
            OutboundItem::Notice(s) => ItemView::Notice(s@),
            OutboundItem::Pong(p) => ItemView::Pong(p@),
        }
    }
}

/// How a queue entry appears on the wire: fragments and notices both travel
/// as text frames, control replies as pong frames.
pub open spec fn wire_view(item: ItemView) -> FrameView {
    match item {
        ItemView::Fragment(s) => FrameView::Text(s),
        ItemView::Notice(s) => FrameView::Text(s),
        ItemView::Pong(p) => FrameView::Pong(p),
    }
}

} // verus!
