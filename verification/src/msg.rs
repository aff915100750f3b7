//! The protocol's message model: a tagged union of seven message kinds,
//! the roster snapshot one of them carries, and mathematical views of
//! both for use in contracts.

use vstd::prelude::*;

verus! {

/// Roster snapshot carried by a `PeerInfoReply`: how many peers are
/// online, how many connection spots remain, and the names of the
/// connected peers (excluding the requester's own).
#[derive(Debug, Clone, PartialEq)]
pub struct PeerInfo {
    pub peers_online: u32,
    pub peer_spots_left: u32,
    pub peer_names: Vec<String>,
}

/// Mathematical view of a roster snapshot.
#[verifier::ext_equal]
pub ghost struct PeerInfoView {
    pub peers_online: u32,
    pub peer_spots_left: u32,
    pub peer_names: Seq<Seq<char>>,
}

impl View for PeerInfo {
    type V = PeerInfoView;

    open spec fn view(&self) -> PeerInfoView {
        PeerInfoView {
            peers_online: self.peers_online,
            peer_spots_left: self.peer_spots_left,
            peer_names: self.peer_names.deep_view(),
        }
    }
}

impl PeerInfoView {
    /// The data-model invariant: peer names form a set, so no name
    /// appears twice.
    pub open spec fn wf(self) -> bool {
        forall|i: int, j: int|
            0 <= i < j < self.peer_names.len() ==> self.peer_names[i] != self.peer_names[j]
    }
}

/// The seven kinds of protocol message.
#[derive(Debug, Clone, PartialEq)]
pub enum MessageType {
    /// A peer joined; the payload is its name.
    NewPeer(String),
    /// A peer left; the payload is its name.
    DisconPeer(String),
    /// The server assigns the receiving client its identity.
    PeerNameAssign(String),
    /// The client asks the server for roster information.
    PeerInfoRequest,
    /// The server's roster response.
    PeerInfoReply(PeerInfo),
    /// A directed message; the payload is the recipient's name and the
    /// body travels in the message's `text`.
    Private(String),
    /// A broadcast chat message; the body travels in `text`.
    Text,
}

/// Mathematical view of a message kind.
#[verifier::ext_equal]
pub ghost enum MessageTypeView {
    NewPeer(Seq<char>),
    DisconPeer(Seq<char>),
    PeerNameAssign(Seq<char>),
    PeerInfoRequest,
    PeerInfoReply(PeerInfoView),
    Private(Seq<char>),
    Text,
}

impl View for MessageType {
    type V = MessageTypeView;

    open spec fn view(&self) -> MessageTypeView {
        match self {
            MessageType::NewPeer(n) => MessageTypeView::NewPeer(n@),
            MessageType::DisconPeer(n) => MessageTypeView::DisconPeer(n@),
            MessageType::PeerNameAssign(n) => MessageTypeView::PeerNameAssign(n@),
            MessageType::PeerInfoRequest => MessageTypeView::PeerInfoRequest,
            MessageType::PeerInfoReply(p) => MessageTypeView::PeerInfoReply(p@),
            MessageType::Private(n) => MessageTypeView::Private(n@),
            MessageType::Text => MessageTypeView::Text,
        }
    }
}

/// One unit of protocol exchange: who sent it, from which transport
/// address, of which kind, and with what free-form payload text.
#[derive(Debug, Clone, PartialEq)]
pub struct Message {
    pub src_name: String,
    pub src_addr: String,
    pub msg_type: MessageType,
    pub text: String,
}

/// Mathematical view of a message.
#[verifier::ext_equal]
pub ghost struct MessageView {
    pub src_name: Seq<char>,
    pub src_addr: Seq<char>,
    pub msg_type: MessageTypeView,
    pub text: Seq<char>,
}

impl View for Message {
    type V = MessageView;

    open spec fn view(&self) -> MessageView {
        MessageView {
            src_name: self.src_name@,
            src_addr: self.src_addr@,
            msg_type: self.msg_type@,
            text: self.text@,
        }
    }
}

} // verus!
