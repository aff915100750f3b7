//! The inbound renderer: pure dispatch from a received message to the
//! one human-readable line it is shown as, plus the welcome line and
//! the input prompt. Rendering never fails and never changes state.

use vstd::prelude::*;

use crate::digits::{spec_dec, u32_to_dec};
use crate::msg::{Message, MessageType, MessageView, MessageTypeView, PeerInfo, PeerInfoView};

verus! {

pub open spec fn spec_quoted(nm: Seq<char>) -> Seq<char> {
    seq!['"'] + nm + seq!['"']
}

/// Peer names, each quoted, joined with commas.
pub open spec fn spec_join_names(names: Seq<Seq<char>>) -> Seq<char>
    decreases names.len(),
{
    if names.len() == 0 {
        Seq::empty()
    } else if names.len() == 1 {
        spec_quoted(names[0])
    } else {
        spec_join_names(names.drop_last()) + ", "@ + spec_quoted(names.last())
    }
}

/// The display form of a roster snapshot.
pub open spec fn spec_render_peer_info(p: PeerInfoView) -> Seq<char> {
    "PeerInfo { peers_online: "@ + spec_dec(p.peers_online as nat) + ", peer_spots_left: "@
        + spec_dec(p.peer_spots_left as nat) + ", peer_names: {"@ + spec_join_names(p.peer_names)
        + "} }"@
}

/// The one line a received message is shown as.
pub open spec fn spec_render(m: MessageView) -> Seq<char> {
    match m.msg_type {
        MessageTypeView::NewPeer(p) => "\n[Chat] "@ + m.src_name + ": "@ + p
            + " has connected."@,
        MessageTypeView::DisconPeer(p) => "\n[Chat] "@ + m.src_name + ": "@ + p
            + " has disconnected."@,
        MessageTypeView::PeerNameAssign(nm) => "\n[PeerName] "@ + m.src_name + ": "@ + m.text
            + ", "@ + nm,
        MessageTypeView::PeerInfoRequest => "\n[PeerDataRequest] "@ + m.src_name + ": "@ + m.text,
        MessageTypeView::PeerInfoReply(p) => "\n[PeerDataReply] "@ + m.src_name + ": "@
            + spec_render_peer_info(p),
        MessageTypeView::Private(nm) => "\n[PM] "@ + m.src_name + ": "@ + m.text + ": "@ + nm,
        MessageTypeView::Text => "\n[Chat] "@ + m.src_name + ": "@ + m.text,
    }
}

/// The line that greets the operator once the server assigns a name.
pub open spec fn spec_welcome(name: Seq<char>) -> Seq<char> {
    "\n[Chat] Welcome to Rust-Chat, "@ + name + "!"@
}

/// The prompt drawn before each read of operator input.
pub open spec fn spec_prompt(name: Seq<char>) -> Seq<char> {
    "\n[Chat] "@ + name + ": "@
}

fn join_names_onto(out: &mut String, names: &Vec<String>)
    ensures
        final(out)@ == old(out)@ + spec_join_names(names.deep_view()),
{
    let ghost dv = names.deep_view();
    let n = names.len();
    let mut i: usize = 0;
    proof {
        assert(dv.take(0) =~= Seq::<Seq<char>>::empty());
        assert(out@ =~= old(out)@ + spec_join_names(dv.take(0)));
    }
    while i < n
        invariant
            dv == names.deep_view(),
            n == dv.len(),
            n == names@.len(),
            0 <= i <= n,
            out@ == old(out)@ + spec_join_names(dv.take(i as int)),
        decreases n - i,
    {
        let ghost out0 = out@;
        if i > 0 {
            out.append(", ");
        }
        out.append("\"");
        out.append(names[i].as_str());
        out.append("\"");
        proof {
            reveal_strlit("\"");
            assert(dv.take(i + 1).drop_last() =~= dv.take(i as int));
            assert(dv.take(i + 1).last() == dv[i as int]);
            assert(dv[i as int] == names@[i as int]@);
            assert(out@ =~= old(out)@ + spec_join_names(dv.take(i + 1)));
        }
        i = i + 1;
    }
    proof {
        assert(dv.take(n as int) =~= dv);
    }
}

fn render_peer_info_onto(out: &mut String, p: &PeerInfo)
    ensures
        final(out)@ == old(out)@ + spec_render_peer_info(p@),
{
    out.append("PeerInfo { peers_online: ");
    let d1 = u32_to_dec(p.peers_online);
    out.append(d1.as_str());
    out.append(", peer_spots_left: ");
    let d2 = u32_to_dec(p.peer_spots_left);
    out.append(d2.as_str());
    out.append(", peer_names: {");
    join_names_onto(out, &p.peer_names);
    out.append("} }");
    proof {
        assert(out@ =~= old(out)@ + spec_render_peer_info(p@));
    }
}

/// Formats a received message for display.
pub fn render_message(m: &Message) -> (s: String)
    ensures
        s@ == spec_render(m@),
{
    let mut out = String::new();
    match &m.msg_type {
        MessageType::NewPeer(p) => {
            out.append("\n[Chat] ");
            out.append(m.src_name.as_str());
            out.append(": ");
            out.append(p.as_str());
            out.append(" has connected.");
            proof {
                assert(out@ =~= spec_render(m@));
            }
        },
        MessageType::DisconPeer(p) => {
            out.append("\n[Chat] ");
            out.append(m.src_name.as_str());
            out.append(": ");
            out.append(p.as_str());
            out.append(" has disconnected.");
            proof {
                assert(out@ =~= spec_render(m@));
            }
        },
        MessageType::PeerNameAssign(nm) => {
            out.append("\n[PeerName] ");
            out.append(m.src_name.as_str());
            out.append(": ");
            out.append(m.text.as_str());
            out.append(", ");
            out.append(nm.as_str());
            proof {
                assert(out@ =~= spec_render(m@));
            }
        },
        MessageType::PeerInfoRequest => {
            out.append("\n[PeerDataRequest] ");
            out.append(m.src_name.as_str());
            out.append(": ");
            out.append(m.text.as_str());
            proof {
                assert(out@ =~= spec_render(m@));
            }
        },
        MessageType::PeerInfoReply(p) => {
            out.append("\n[PeerDataReply] ");
            out.append(m.src_name.as_str());
            out.append(": ");
            render_peer_info_onto(&mut out, p);
            proof {
                assert(out@ =~= spec_render(m@));
            }
        },
        MessageType::Private(nm) => {
            out.append("\n[PM] ");
            out.append(m.src_name.as_str());
            out.append(": ");
            out.append(m.text.as_str());
            out.append(": ");
            out.append(nm.as_str());
            proof {
                assert(out@ =~= spec_render(m@));
            }
        },
        MessageType::Text => {
            out.append("\n[Chat] ");
            out.append(m.src_name.as_str());
            out.append(": ");
            out.append(m.text.as_str());
            proof {
                assert(out@ =~= spec_render(m@));
            }
        },
    }
    out
}

/// Builds the welcome line for a freshly assigned name.
pub fn welcome_line(name: &str) -> (s: String)
    ensures
        s@ == spec_welcome(name@),
{
    let mut out = String::new();
    out.append("\n[Chat] Welcome to Rust-Chat, ");
    out.append(name);
    out.append("!");
    proof {
        assert(out@ =~= spec_welcome(name@));
    }
    out
}

/// Builds the prompt shown before each read of operator input.
pub fn prompt_line(name: &str) -> (s: String)
    ensures
        s@ == spec_prompt(name@),
{
    let mut out = String::new();
    out.append("\n[Chat] ");
    out.append(name);
    out.append(": ");
    proof {
        assert(out@ =~= spec_prompt(name@));
    }
    out
}

} // verus!
