use chat_client::codec::{decode, encode};
use chat_client::command::{line_ok, normalize_line, parse_command};
use chat_client::digits::{dec_to_u32, u32_to_dec};
use chat_client::msg::{Message, MessageType, PeerInfo};
use chat_client::render::{prompt_line, render_message, welcome_line};
use chat_client::session::{Client, Session, SessionAction, SessionEvent, SessionState};

fn msg(msg_type: MessageType, text: &str) -> Message {
    Message {
        src_name: String::from("alice"),
        src_addr: String::from("127.0.0.1:9000"),
        msg_type,
        text: String::from(text),
    }
}

fn assert_round_trips(m: Message) {
    let frame = encode(&m);
    let back = decode(frame.as_str()).expect("a frame built by encode must decode");
    assert_eq!(back, m);
}

#[test]
fn round_trip_new_peer() {
    assert_round_trips(msg(MessageType::NewPeer(String::from("bob")), ""));
}

#[test]
fn round_trip_discon_peer() {
    assert_round_trips(msg(MessageType::DisconPeer(String::from("bob")), ""));
}

#[test]
fn round_trip_peer_name_assign() {
    assert_round_trips(msg(MessageType::PeerNameAssign(String::from("carol")), "ignored"));
}

#[test]
fn round_trip_peer_info_request() {
    assert_round_trips(msg(MessageType::PeerInfoRequest, ""));
}

#[test]
fn round_trip_peer_info_reply() {
    let info = PeerInfo {
        peers_online: 3,
        peer_spots_left: 17,
        peer_names: vec![String::from("bob"), String::from("carol"), String::from("")],
    };
    assert_round_trips(msg(MessageType::PeerInfoReply(info), ""));
}

#[test]
fn round_trip_peer_info_reply_empty_roster() {
    let info = PeerInfo { peers_online: 0, peer_spots_left: 0, peer_names: Vec::new() };
    assert_round_trips(msg(MessageType::PeerInfoReply(info), ""));
}

#[test]
fn round_trip_private() {
    assert_round_trips(msg(MessageType::Private(String::from("bob")), "psst"));
}

#[test]
fn round_trip_text() {
    assert_round_trips(msg(MessageType::Text, "hello everyone"));
}

#[test]
fn round_trip_empty_strings() {
    let m = Message {
        src_name: String::new(),
        src_addr: String::new(),
        msg_type: MessageType::Text,
        text: String::new(),
    };
    assert_round_trips(m);
}

#[test]
fn round_trip_payload_uses_marker_characters() {
    // Payload text made of the frame's own marker characters must survive.
    assert_round_trips(msg(MessageType::Text, "cesceseccNRQTe"));
}

#[test]
fn round_trip_max_counters() {
    let info = PeerInfo {
        peers_online: u32::MAX,
        peer_spots_left: u32::MAX,
        peer_names: vec![String::from("bob")],
    };
    assert_round_trips(msg(MessageType::PeerInfoReply(info), ""));
}

#[test]
fn decode_rejects_garbage() {
    assert!(decode("").is_err());
    assert!(decode("hello").is_err());
    assert!(decode("e").is_err());
    // A name whose marker run is cut short.
    assert!(decode("c").is_err());
}

#[test]
fn decode_rejects_trailing_garbage() {
    let m = msg(MessageType::Text, "hi");
    let mut frame = encode(&m);
    assert!(decode(frame.as_str()).is_ok());
    frame.push('e');
    assert!(decode(frame.as_str()).is_err());
}

#[test]
fn decode_rejects_unknown_tag() {
    // name, addr, bogus tag, text
    assert!(decode("eeXe").is_err());
}

#[test]
fn decode_rejects_counter_overflow() {
    // PeerInfoReply whose first counter does not fit in a u32.
    let frame = "eeRc4c2c9c4c9c6c7c2c9c6ec0eee";
    assert!(decode(frame).is_err());
}

#[test]
fn pm_line_yields_private_message() {
    let m = parse_command("pm: bob hello", "alice", "addr");
    assert_eq!(m.msg_type, MessageType::Private(String::from("bob")));
    assert_eq!(m.text, "hello");
    assert_eq!(m.src_name, "alice");
    assert_eq!(m.src_addr, "addr");
}

#[test]
fn pm_line_drops_words_past_the_body() {
    let m = parse_command("pm: bob hello world", "alice", "addr");
    assert_eq!(m.msg_type, MessageType::Private(String::from("bob")));
    assert_eq!(m.text, "hello");
}

#[test]
fn peerdatarequest_line_yields_roster_query() {
    let m = parse_command("peerdatarequest", "alice", "addr");
    assert_eq!(m.msg_type, MessageType::PeerInfoRequest);
    assert_eq!(m.text, "");
}

#[test]
fn plain_line_yields_broadcast() {
    let m = parse_command("hello world", "alice", "addr");
    assert_eq!(m.msg_type, MessageType::Text);
    assert_eq!(m.text, "hello world");
}

#[test]
fn line_endings_parse_identically() {
    let bare = parse_command(normalize_line("pm: bob hi").as_str(), "a", "b");
    let lf = parse_command(normalize_line("pm: bob hi\n").as_str(), "a", "b");
    let crlf = parse_command(normalize_line("pm: bob hi\r\n").as_str(), "a", "b");
    assert_eq!(bare, lf);
    assert_eq!(bare, crlf);
}

#[test]
fn normalize_strips_one_terminator_only() {
    assert_eq!(normalize_line("hi\n"), "hi");
    assert_eq!(normalize_line("hi\r\n"), "hi");
    assert_eq!(normalize_line("hi"), "hi");
    assert_eq!(normalize_line("hi\n\n"), "hi\n");
    // A carriage return goes only when a newline followed it.
    assert_eq!(normalize_line("hi\r"), "hi\r");
    assert_eq!(normalize_line(""), "");
}

#[test]
fn line_ok_rejects_bodyless_pm() {
    assert!(!line_ok("pm: bob\n"));
    assert!(line_ok("pm: bob hi\n"));
    assert!(line_ok("peerdatarequest\n"));
    assert!(line_ok("anything else\n"));
    assert!(line_ok("\n"));
}

#[test]
fn handshake_ignores_frames_without_name_assignment() {
    let mut s = Session::new(Client::new(String::from("server:8080")), String::from("127.0.0.1:9000"));
    assert_eq!(s.state, SessionState::AwaitingIdentity);
    let newpeer = encode(&msg(MessageType::NewPeer(String::from("bob")), ""));
    match s.step(SessionEvent::Frame(newpeer)) {
        SessionAction::Idle => {}
        _ => panic!("a non-assignment frame must be discarded"),
    }
    let text = encode(&msg(MessageType::Text, "early chatter"));
    match s.step(SessionEvent::Frame(text)) {
        SessionAction::Idle => {}
        _ => panic!("a non-assignment frame must be discarded"),
    }
    assert_eq!(s.state, SessionState::AwaitingIdentity);
    assert_eq!(s.client.name, "");
}

#[test]
fn handshake_assigns_name_and_becomes_ready() {
    let mut s = Session::new(Client::new(String::from("server:8080")), String::from("127.0.0.1:9000"));
    let assign = encode(&msg(MessageType::PeerNameAssign(String::from("alice")), ""));
    match s.step(SessionEvent::Frame(assign)) {
        SessionAction::Render(line) => {
            assert_eq!(line, "\n[Chat] Welcome to Rust-Chat, alice!");
        }
        _ => panic!("the assignment frame must render the welcome line"),
    }
    assert_eq!(s.state, SessionState::Ready);
    assert_eq!(s.client.name, "alice");
}

fn ready_session() -> Session {
    let mut s = Session::new(Client::new(String::from("server:8080")), String::from("127.0.0.1:9000"));
    let assign = encode(&msg(MessageType::PeerNameAssign(String::from("alice")), ""));
    s.step(SessionEvent::Frame(assign));
    s
}

#[test]
fn inbound_close_ends_session_immediately() {
    let mut s = ready_session();
    match s.step(SessionEvent::InboundClosed) {
        SessionAction::End => {}
        _ => panic!("a closed inbound stream must end the session"),
    }
    assert_eq!(s.state, SessionState::Ended);
}

#[test]
fn inbound_close_ends_session_during_handshake() {
    let mut s = Session::new(Client::new(String::from("server:8080")), String::from("127.0.0.1:9000"));
    match s.step(SessionEvent::InboundClosed) {
        SessionAction::End => {}
        _ => panic!("a closed inbound stream must end the session"),
    }
    assert_eq!(s.state, SessionState::Ended);
}

#[test]
fn local_close_ends_session() {
    let mut s = ready_session();
    match s.step(SessionEvent::LocalClosed) {
        SessionAction::End => {}
        _ => panic!("end of local input must end the session"),
    }
    assert_eq!(s.state, SessionState::Ended);
}

#[test]
fn undecodable_frame_is_fatal() {
    let mut s = ready_session();
    match s.step(SessionEvent::Frame(String::from("not a frame"))) {
        SessionAction::End => {}
        _ => panic!("a decode failure must end the session"),
    }
    assert_eq!(s.state, SessionState::Ended);
}

#[test]
fn ready_session_renders_inbound_frames() {
    let mut s = ready_session();
    let frame = encode(&msg(MessageType::Text, "hi all"));
    match s.step(SessionEvent::Frame(frame)) {
        SessionAction::Render(line) => assert_eq!(line, "\n[Chat] alice: hi all"),
        _ => panic!("a decoded frame must render"),
    }
    assert_eq!(s.state, SessionState::Ready);
}

#[test]
fn ready_session_sends_local_lines_as_frames() {
    let mut s = ready_session();
    match s.step(SessionEvent::LocalLine(String::from("hello there\n"))) {
        SessionAction::SendFrame(frame) => {
            let sent = decode(frame.as_str()).expect("an outbound frame must decode");
            assert_eq!(sent.msg_type, MessageType::Text);
            assert_eq!(sent.text, "hello there");
            assert_eq!(sent.src_name, "alice");
            assert_eq!(sent.src_addr, "127.0.0.1:9000");
        }
        _ => panic!("a local line must become one outbound frame"),
    }
}

#[test]
fn ready_session_sends_private_messages() {
    let mut s = ready_session();
    match s.step(SessionEvent::LocalLine(String::from("pm: bob secret\r\n"))) {
        SessionAction::SendFrame(frame) => {
            let sent = decode(frame.as_str()).expect("an outbound frame must decode");
            assert_eq!(sent.msg_type, MessageType::Private(String::from("bob")));
            assert_eq!(sent.text, "secret");
        }
        _ => panic!("a local line must become one outbound frame"),
    }
}

#[test]
fn no_frame_sent_before_ready() {
    let mut s = Session::new(Client::new(String::from("server:8080")), String::from("127.0.0.1:9000"));
    match s.step(SessionEvent::LocalLine(String::from("hello\n"))) {
        SessionAction::Idle => {}
        _ => panic!("no local frame may be sent during the handshake"),
    }
    assert_eq!(s.state, SessionState::AwaitingIdentity);
}

#[test]
fn render_covers_every_kind() {
    assert_eq!(
        render_message(&msg(MessageType::NewPeer(String::from("bob")), "")),
        "\n[Chat] alice: bob has connected."
    );
    assert_eq!(
        render_message(&msg(MessageType::DisconPeer(String::from("bob")), "")),
        "\n[Chat] alice: bob has disconnected."
    );
    assert_eq!(
        render_message(&msg(MessageType::PeerNameAssign(String::from("new")), "note")),
        "\n[PeerName] alice: note, new"
    );
    assert_eq!(
        render_message(&msg(MessageType::PeerInfoRequest, "why")),
        "\n[PeerDataRequest] alice: why"
    );
    assert_eq!(
        render_message(&msg(MessageType::Private(String::from("bob")), "psst")),
        "\n[PM] alice: psst: bob"
    );
    assert_eq!(render_message(&msg(MessageType::Text, "hi")), "\n[Chat] alice: hi");
}

#[test]
fn render_peer_info_reply_lists_the_roster() {
    let info = PeerInfo {
        peers_online: 3,
        peer_spots_left: 2,
        peer_names: vec![String::from("bob"), String::from("carol")],
    };
    assert_eq!(
        render_message(&msg(MessageType::PeerInfoReply(info), "")),
        "\n[PeerDataReply] alice: PeerInfo { peers_online: 3, peer_spots_left: 2, peer_names: {\"bob\", \"carol\"} }"
    );
}

#[test]
fn prompt_and_welcome_lines() {
    assert_eq!(prompt_line("alice"), "\n[Chat] alice: ");
    assert_eq!(welcome_line("alice"), "\n[Chat] Welcome to Rust-Chat, alice!");
}

#[test]
fn decimal_numerals() {
    assert_eq!(u32_to_dec(0), "0");
    assert_eq!(u32_to_dec(10), "10");
    assert_eq!(u32_to_dec(4294967295), "4294967295");
    assert_eq!(dec_to_u32("0"), Some(0));
    assert_eq!(dec_to_u32("4294967295"), Some(4294967295));
    assert_eq!(dec_to_u32("4294967296"), None);
    assert_eq!(dec_to_u32(""), None);
    assert_eq!(dec_to_u32("12x"), None);
    assert_eq!(dec_to_u32("007"), Some(7));
}

#[test]
fn client_starts_nameless() {
    let c = Client::new(String::from("addr:1"));
    assert_eq!(c.addr, "addr:1");
    assert_eq!(c.name, "");
}
