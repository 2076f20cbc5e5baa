//! Operator-visible events and their wire form: a tagged JSON union of
//! probe logs and notifications, written as text frames to WebSocket
//! peers.

use vstd::prelude::*;

use crate::log::LogForCreate;
use crate::status::Level;

verus! {

/// A popup notification for operators.
pub struct Notification {
    pub title: String,
    pub message: String,
    pub level: Level,
}

impl Clone for Notification {
    fn clone(&self) -> (r: Self)
        ensures
            r == *self,
    {
        Notification {
            title: self.title.clone(),
            message: self.message.clone(),
            level: self.level,
        }
    }
}

/// An event on the operator bus: either one probe log record, or a
/// notification.
pub enum Event {
    Log(LogForCreate),
    Notification(Notification),
}

impl Clone for Event {
    fn clone(&self) -> (r: Self)
        ensures
            r == *self,
    {
        match self {
            Event::Log(l) => Event::Log(l.clone()),
            Event::Notification(n) => Event::Notification(n.clone()),
        }
    }
}

/// The three-byte payload of the greeting ping frame a connection sends
/// right after the upgrade, to verify the peer.
pub fn initial_ping_payload() -> (r: Vec<u8>)
    ensures
        r@ == seq![1u8, 2u8, 3u8],
{
    let mut v: Vec<u8> = Vec::new();
    v.push(1);
    v.push(2);
    v.push(3);
    proof {
        assert(v@ =~= seq![1u8, 2u8, 3u8]);
    }
    v
}

/// What a connection reads from a peer, reduced to what the hub reacts to.
#[derive(Debug, Clone, Copy, PartialEq, Eq, Structural)]
pub enum PeerMessage {
    /// A text frame; logged and discarded.
    Text,
    /// A close frame; ends the connection.
    Close,
    /// Anything else; ignored.
    Other,
}

/// Whether the receive loop keeps the connection open after this peer
/// message: every frame but a close is discarded and the loop goes on.
pub fn continues_after(msg: PeerMessage) -> (r: bool)
    ensures
        r == (msg != PeerMessage::Close),
{
    match msg {
        PeerMessage::Close => false,
        _ => true,
    }
}

} // verus!
