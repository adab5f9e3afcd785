//! Inbound router: classifies frames read from the client connection.
//!
//! Control frames are answered immediately and never reach the worker;
//! text frames are handed to the worker's input queue; a close or any
//! unsupported frame ends the session; malformed data is ignored.

use vstd::prelude::*;
use crate::frames::InboundFrame;

verus! {

/// What the router does with one inbound frame.
pub enum RouterAction {
    /// Queue a pong reply carrying the ping's payload.
    Reply(Vec<u8>),
    /// Hand the user's text to the worker's input queue.
    Deliver(String),
    /// Tear the session down.
    Shutdown,
    /// Drop the frame and carry on.
    Ignore,
}

/// The classification rule, stated once; `classify` returns exactly this.
pub open spec fn classify_spec(frame: InboundFrame) -> RouterAction {
    match frame {
        InboundFrame::Text(s) => RouterAction::Deliver(s),
        InboundFrame::Ping(p) => RouterAction::Reply(p),
        InboundFrame::Close => RouterAction::Shutdown,
        InboundFrame::Unsupported => RouterAction::Shutdown,
        InboundFrame::Malformed => RouterAction::Ignore,
    }
}

/// Classifies one inbound frame.
pub fn classify(frame: InboundFrame) -> (action: RouterAction)
    ensures
        action == classify_spec(frame),
{
    match frame {
        InboundFrame::Text(s) => RouterAction::Deliver(s),
        InboundFrame::Ping(p) => RouterAction::Reply(p),
        InboundFrame::Close => RouterAction::Shutdown,
        InboundFrame::Unsupported => RouterAction::Shutdown,
        InboundFrame::Malformed => RouterAction::Ignore,
    }
}

/// A ping is answered, never delivered; a text is delivered, never
/// answered: the two kinds of inbound frame take disjoint paths.
pub proof fn lemma_classification_disjoint(frame: InboundFrame)
    ensures
        frame is Ping ==> classify_spec(frame) is Reply,
        frame is Text ==> classify_spec(frame) is Deliver,
        !(classify_spec(frame) is Reply && classify_spec(frame) is Deliver),
{
}

} // verus!
