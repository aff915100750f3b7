//! The session engine: one client identity, the handshake that obtains
//! it, and the step function that decides, for every event a running
//! session can see, what the next state is and what single action the
//! surrounding I/O loops must perform.
//!
//! Events are what the outside world delivers: a whole inbound frame,
//! the end of the inbound stream, one raw line of local input, or the
//! end of local input. Actions are what the engine asks for in return:
//! write a line to the display, send a frame, or stop. The engine never
//! performs I/O itself.

use vstd::prelude::*;

use crate::codec::{decode, encode, spec_parse_msg, spec_encode};
use crate::command::{normalize_line, parse_command, spec_line_ok, spec_command, spec_normalize};
use crate::msg::{MessageType, MessageTypeView};
use crate::render::{render_message, welcome_line, spec_render, spec_welcome};

verus! {

/// One session entity: the endpoint address it was built for (fixed at
/// construction) and the identity the server assigns during handshake
/// (empty until then, then unchanged for the session's lifetime).
pub struct Client {
    pub addr: String,
    pub name: String,
}

impl Client {
    /// A fresh client for one endpoint address, with no identity yet.
    pub fn new(addr: String) -> (c: Client)
        ensures
            c.addr@ == addr@,
            c.name@ == Seq::<char>::empty(),
    {
        Client { addr, name: String::new() }
    }
}

/// Where a session stands: waiting for the server to assign an
/// identity, pumping messages, or over.
#[derive(PartialEq, Eq, Structural, Clone, Copy, Debug)]
pub enum SessionState {
    AwaitingIdentity,
    Ready,
    Ended,
}

/// One thing the outside world delivers to the engine.
pub enum SessionEvent {
    /// One whole text frame arrived on the transport.
    Frame(String),
    /// The transport's inbound stream ended or closed.
    InboundClosed,
    /// One raw line of local operator input (terminator still attached).
    LocalLine(String),
    /// Local input reached end of stream or failed.
    LocalClosed,
}

/// The single thing the engine asks the surrounding loops to do next.
pub enum SessionAction {
    /// Nothing; keep pumping.
    Idle,
    /// Show this line to the operator and flush.
    Render(String),
    /// Write this frame to the transport.
    SendFrame(String),
    /// The session is over; abandon the other pump and stop.
    End,
}

/// A session: the client identity, the transport-level local address
/// that outbound messages are stamped with, and where the protocol
/// stands.
pub struct Session {
    pub client: Client,
    pub local_addr: String,
    pub state: SessionState,
}

/// Maps one raw line of operator input to the frame that carries the
/// message it denotes, stamped with the given name and address. This is
/// the whole outbound path: trim the line ending, read the command,
/// encode the message.
pub fn outbound_frame(line: &str, src_name: &str, src_addr: &str) -> (f: String)
    requires
        spec_line_ok(line@),
    ensures
        f@ == spec_encode(spec_command(spec_normalize(line@), src_name@, src_addr@)),
{
    let trimmed = normalize_line(line);
    let m = parse_command(trimmed.as_str(), src_name, src_addr);
    encode(&m)
}

impl Session {
    /// A session starts by awaiting the server's identity assignment.
    /// `local_addr` is the transport's local address, fixed for the
    /// session's lifetime.
    pub fn new(client: Client, local_addr: String) -> (s: Session)
        ensures
            s.client == client,
            s.local_addr == local_addr,
            s.state is AwaitingIdentity,
    {
        Session { client, local_addr, state: SessionState::AwaitingIdentity }
    }

    /// Advances the session by one event and says what to do.
    ///
    /// The contract spells the whole protocol out:
    /// - a frame that does not decode ends the session (decode errors
    ///   are fatal, never skipped);
    /// - while awaiting identity, every frame but a name assignment is
    ///   discarded with no render and no state change; a name
    ///   assignment sets the name exactly once, moves to ready, and
    ///   renders the welcome line;
    /// - once ready, every decoded frame renders as exactly one line,
    ///   and a local line becomes exactly the frame that encodes the
    ///   command the line denotes;
    /// - either stream closing ends the session at once, whatever else
    ///   is still pending.
    pub fn step(&mut self, event: SessionEvent) -> (a: SessionAction)
        requires
            event matches SessionEvent::LocalLine(l) ==> spec_line_ok(l@),
        ensures
            old(self).client.addr == final(self).client.addr,
            old(self).local_addr == final(self).local_addr,
            match event {
                SessionEvent::Frame(f) => match spec_parse_msg(f@) {
                    None => final(self).state is Ended && a is End && final(self).client == old(self).client,
                    Some(mv) => match old(self).state {
                        SessionState::AwaitingIdentity => match mv.msg_type {
                            MessageTypeView::PeerNameAssign(nm) => {
                                &&& final(self).state is Ready
                                &&& final(self).client.name@ == nm
                                &&& a matches SessionAction::Render(line) && line@ == spec_welcome(
                                    nm,
                                )
                            },
                            _ => *final(self) == *old(self) && a is Idle,
                        },
                        SessionState::Ready => {
                            &&& *final(self) == *old(self)
                            &&& a matches SessionAction::Render(line) && line@ == spec_render(mv)
                        },
                        SessionState::Ended => *final(self) == *old(self) && a is End,
                    },
                },
                SessionEvent::InboundClosed => final(self).state is Ended && a is End && final(self).client
                    == old(self).client,
                SessionEvent::LocalLine(l) => match old(self).state {
                    SessionState::Ready => {
                        &&& *final(self) == *old(self)
                        &&& a matches SessionAction::SendFrame(f) && f@ == spec_encode(
                            spec_command(
                                spec_normalize(l@),
                                old(self).client.name@,
                                old(self).local_addr@,
                            ),
                        )
                    },
                    SessionState::AwaitingIdentity => *final(self) == *old(self) && a is Idle,
                    SessionState::Ended => *final(self) == *old(self) && a is End,
                },
                SessionEvent::LocalClosed => final(self).state is Ended && a is End && final(self).client
                    == old(self).client,
            },
    {
        match event {
            SessionEvent::Frame(f) => {
                match decode(f.as_str()) {
                    Err(_) => {
                        self.state = SessionState::Ended;
                        SessionAction::End
                    },
                    Ok(m) => match self.state {
                        SessionState::AwaitingIdentity => {
                            match m.msg_type {
                                MessageType::PeerNameAssign(nm) => {
                                    let line = welcome_line(nm.as_str());
                                    self.client.name = nm;
                                    self.state = SessionState::Ready;
                                    SessionAction::Render(line)
                                },
                                _ => SessionAction::Idle,
                            }
                        },
                        SessionState::Ready => {
                            let line = render_message(&m);
                            SessionAction::Render(line)
                        },
                        SessionState::Ended => SessionAction::End,
                    },
                }
            },
            SessionEvent::InboundClosed => {
                self.state = SessionState::Ended;
                SessionAction::End
            },
            SessionEvent::LocalLine(l) => {
                match self.state {
                    SessionState::Ready => {
                        let frame = outbound_frame(
                            l.as_str(),
                            self.client.name.as_str(),
                            self.local_addr.as_str(),
                        );
                        SessionAction::SendFrame(frame)
                    },
                    SessionState::AwaitingIdentity => SessionAction::Idle,
                    SessionState::Ended => SessionAction::End,
                }
            },
            SessionEvent::LocalClosed => {
                self.state = SessionState::Ended;
                SessionAction::End
            },
        }
    }
}

} // verus!
