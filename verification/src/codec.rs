//! The wire format: every message travels as one text frame, and this
//! module defines what that frame looks like (`spec_encode`), what any
//! frame decodes to (`spec_parse_msg`), the executable encoder and
//! decoder, and the proof that they are mutual inverses.
//!
//! A string is framed as a run of marked characters closed by a
//! terminator: each payload character is preceded by `'c'`, and `'e'`
//! ends the string. A name list marks each name's characters the same
//! way, closes each name with `'s'`, and ends with `'e'`. The counters
//! of a roster snapshot travel as decimal numerals framed as strings.
//! A frame is the sender's name, the sender's address, a tag character
//! for the message kind with the kind's payload, then the free text.

use vstd::prelude::*;

use crate::digits::{spec_dec, spec_dec_val, lemma_dec_val_round_trip, u32_to_dec, dec_to_u32};
use crate::msg::{Message, MessageType, MessageView, MessageTypeView, PeerInfo, PeerInfoView};

verus! {

/// A frame that is not a well-formed encoding of any message.
#[derive(Debug, Clone)]
pub struct DecodeError;

/// The framed form of one string.
pub open spec fn spec_enc_str(s: Seq<char>) -> Seq<char>
    decreases s.len(),
{
    if s.len() == 0 {
        seq!['e']
    } else {
        seq!['c', s[0]] + spec_enc_str(s.skip(1))
    }
}

/// The marked characters of one name inside a name list (no terminator).
pub open spec fn spec_enc_name_chars(nm: Seq<char>) -> Seq<char>
    decreases nm.len(),
{
    if nm.len() == 0 {
        Seq::empty()
    } else {
        seq!['c', nm[0]] + spec_enc_name_chars(nm.skip(1))
    }
}

/// The framed form of a name list.
pub open spec fn spec_enc_list(names: Seq<Seq<char>>) -> Seq<char>
    decreases names.len(),
{
    if names.len() == 0 {
        seq!['e']
    } else {
        spec_enc_name_chars(names[0]) + seq!['s'] + spec_enc_list(names.skip(1))
    }
}

/// The framed form of a message kind: its tag character, then its payload.
pub open spec fn spec_enc_type(t: MessageTypeView) -> Seq<char> {
    match t {
        MessageTypeView::NewPeer(n) => seq!['N'] + spec_enc_str(n),
        MessageTypeView::DisconPeer(n) => seq!['D'] + spec_enc_str(n),
        MessageTypeView::PeerNameAssign(n) => seq!['A'] + spec_enc_str(n),
        MessageTypeView::PeerInfoRequest => seq!['Q'],
        MessageTypeView::PeerInfoReply(p) => seq!['R'] + spec_enc_str(
            spec_dec(p.peers_online as nat),
        ) + spec_enc_str(spec_dec(p.peer_spots_left as nat)) + spec_enc_list(p.peer_names),
        MessageTypeView::Private(n) => seq!['P'] + spec_enc_str(n),
        MessageTypeView::Text => seq!['T'],
    }
}

/// The frame that carries a message.
pub open spec fn spec_encode(m: MessageView) -> Seq<char> {
    spec_enc_str(m.src_name) + spec_enc_str(m.src_addr) + spec_enc_type(m.msg_type) + spec_enc_str(
        m.text,
    )
}

/// Reads one framed string off the front; yields the string and what
/// follows it, or nothing if no framed string starts here.
pub open spec fn spec_parse_str(s: Seq<char>) -> Option<(Seq<char>, Seq<char>)>
    decreases s.len(),
{
    if s.len() == 0 {
        None
    } else if s[0] == 'e' {
        Some((Seq::empty(), s.skip(1)))
    } else if s[0] == 'c' && s.len() >= 2 {
        match spec_parse_str(s.skip(2)) {
            None => None,
            Some((t, r)) => Some((seq![s[1]] + t, r)),
        }
    } else {
        None
    }
}

/// Reads one framed name list off the front.
pub open spec fn spec_parse_list(s: Seq<char>) -> Option<(Seq<Seq<char>>, Seq<char>)>
    decreases s.len(),
{
    if s.len() == 0 {
        None
    } else if s[0] == 'e' {
        Some((Seq::empty(), s.skip(1)))
    } else if s[0] == 's' {
        match spec_parse_list(s.skip(1)) {
            None => None,
            Some((names, r)) => Some((seq![Seq::<char>::empty()] + names, r)),
        }
    } else if s[0] == 'c' && s.len() >= 2 {
        match spec_parse_list(s.skip(2)) {
            None => None,
            Some((names, r)) => if names.len() > 0 {
                Some((seq![seq![s[1]] + names[0]] + names.skip(1), r))
            } else {
                None
            },
        }
    } else {
        None
    }
}

/// Reads one framed message kind off the front.
pub open spec fn spec_parse_type(s: Seq<char>) -> Option<(MessageTypeView, Seq<char>)> {
    if s.len() == 0 {
        None
    } else {
        let rest = s.skip(1);
        if s[0] == 'Q' {
            Some((MessageTypeView::PeerInfoRequest, rest))
        } else if s[0] == 'T' {
            Some((MessageTypeView::Text, rest))
        } else if s[0] == 'N' {
            match spec_parse_str(rest) {
                None => None,
                Some((n, r)) => Some((MessageTypeView::NewPeer(n), r)),
            }
        } else if s[0] == 'D' {
            match spec_parse_str(rest) {
                None => None,
                Some((n, r)) => Some((MessageTypeView::DisconPeer(n), r)),
            }
        } else if s[0] == 'A' {
            match spec_parse_str(rest) {
                None => None,
                Some((n, r)) => Some((MessageTypeView::PeerNameAssign(n), r)),
            }
        } else if s[0] == 'P' {
            match spec_parse_str(rest) {
                None => None,
                Some((n, r)) => Some((MessageTypeView::Private(n), r)),
            }
        } else if s[0] == 'R' {
            match spec_parse_str(rest) {
                None => None,
                Some((d1, r1)) => match spec_dec_val(d1) {
                    None => None,
                    Some(online) => match spec_parse_str(r1) {
                        None => None,
                        Some((d2, r2)) => match spec_dec_val(d2) {
                            None => None,
                            Some(spots) => match spec_parse_list(r2) {
                                None => None,
                                Some((names, r3)) => Some(
                                    (
                                        MessageTypeView::PeerInfoReply(
                                            PeerInfoView {
                                                peers_online: online,
                                                peer_spots_left: spots,
                                                peer_names: names,
                                            },
                                        ),
                                        r3,
                                    ),
                                ),
                            },
                        },
                    },
                },
            }
        } else {
            None
        }
    }
}

/// What a whole frame decodes to, if anything: four fields in order,
/// with nothing left over.
pub open spec fn spec_parse_msg(s: Seq<char>) -> Option<MessageView> {
    match spec_parse_str(s) {
        None => None,
        Some((src_name, s1)) => match spec_parse_str(s1) {
            None => None,
            Some((src_addr, s2)) => match spec_parse_type(s2) {
                None => None,
                Some((msg_type, s3)) => match spec_parse_str(s3) {
                    None => None,
                    Some((text, s4)) => if s4.len() == 0 {
                        Some(MessageView { src_name, src_addr, msg_type, text })
                    } else {
                        None
                    },
                },
            },
        },
    }
}

proof fn lemma_parse_enc_str(s: Seq<char>, rest: Seq<char>)
    ensures
        spec_parse_str(spec_enc_str(s) + rest) == Some((s, rest)),
    decreases s.len(),
{
    let full = spec_enc_str(s) + rest;
    if s.len() == 0 {
        assert(full[0] == 'e');
        assert(full.skip(1) =~= rest);
        assert(s =~= Seq::<char>::empty());
    } else {
        assert(full[0] == 'c');
        assert(full[1] == s[0]);
        assert(full.len() >= 2);
        assert(full.skip(2) =~= spec_enc_str(s.skip(1)) + rest);
        lemma_parse_enc_str(s.skip(1), rest);
        assert(seq![s[0]] + s.skip(1) =~= s);
    }
}

proof fn lemma_parse_enc_name(nm: Seq<char>, x: Seq<char>, t: Seq<Seq<char>>, r: Seq<char>)
    requires
        spec_parse_list(x) == Some((t, r)),
    ensures
        spec_parse_list(spec_enc_name_chars(nm) + seq!['s'] + x) == Some((seq![nm] + t, r)),
    decreases nm.len(),
{
    let full = spec_enc_name_chars(nm) + seq!['s'] + x;
    if nm.len() == 0 {
        assert(full[0] == 's');
        assert(full.skip(1) =~= x);
        assert(nm =~= Seq::<char>::empty());
        assert(seq![nm] + t =~= seq![Seq::<char>::empty()] + t);
    } else {
        assert(full[0] == 'c');
        assert(full[1] == nm[0]);
        assert(full.len() >= 2);
        assert(full.skip(2) =~= spec_enc_name_chars(nm.skip(1)) + seq!['s'] + x);
        lemma_parse_enc_name(nm.skip(1), x, t, r);
        let inner = seq![nm.skip(1)] + t;
        assert(inner[0] == nm.skip(1));
        assert(inner.skip(1) =~= t);
        assert(seq![nm[0]] + nm.skip(1) =~= nm);
        assert(seq![seq![full[1]] + inner[0]] + inner.skip(1) =~= seq![nm] + t);
    }
}

proof fn lemma_parse_enc_list(names: Seq<Seq<char>>, rest: Seq<char>)
    ensures
        spec_parse_list(spec_enc_list(names) + rest) == Some((names, rest)),
    decreases names.len(),
{
    let full = spec_enc_list(names) + rest;
    if names.len() == 0 {
        assert(full[0] == 'e');
        assert(full.skip(1) =~= rest);
        assert(names =~= Seq::<Seq<char>>::empty());
    } else {
        lemma_parse_enc_list(names.skip(1), rest);
        assert(full =~= spec_enc_name_chars(names[0]) + seq!['s'] + (spec_enc_list(names.skip(1))
            + rest));
        lemma_parse_enc_name(names[0], spec_enc_list(names.skip(1)) + rest, names.skip(1), rest);
        assert(seq![names[0]] + names.skip(1) =~= names);
    }
}

proof fn lemma_parse_enc_type(t: MessageTypeView, rest: Seq<char>)
    ensures
        spec_parse_type(spec_enc_type(t) + rest) == Some((t, rest)),
{
    let full = spec_enc_type(t) + rest;
    match t {
        MessageTypeView::NewPeer(n) => {
            assert(full[0] == 'N');
            assert(full.skip(1) =~= spec_enc_str(n) + rest);
            lemma_parse_enc_str(n, rest);
        },
        MessageTypeView::DisconPeer(n) => {
            assert(full[0] == 'D');
            assert(full.skip(1) =~= spec_enc_str(n) + rest);
            lemma_parse_enc_str(n, rest);
        },
        MessageTypeView::PeerNameAssign(n) => {
            assert(full[0] == 'A');
            assert(full.skip(1) =~= spec_enc_str(n) + rest);
            lemma_parse_enc_str(n, rest);
        },
        MessageTypeView::PeerInfoRequest => {
            assert(full[0] == 'Q');
            assert(full.skip(1) =~= rest);
        },
        MessageTypeView::PeerInfoReply(p) => {
            assert(full[0] == 'R');
            let e1 = spec_enc_str(spec_dec(p.peers_online as nat));
            let e2 = spec_enc_str(spec_dec(p.peer_spots_left as nat));
            let el = spec_enc_list(p.peer_names);
            assert(full.skip(1) =~= e1 + (e2 + (el + rest)));
            lemma_parse_enc_str(spec_dec(p.peers_online as nat), e2 + (el + rest));
            lemma_dec_val_round_trip(p.peers_online);
            lemma_parse_enc_str(spec_dec(p.peer_spots_left as nat), el + rest);
            lemma_dec_val_round_trip(p.peer_spots_left);
            lemma_parse_enc_list(p.peer_names, rest);
            assert(spec_parse_type(full) matches Some((tt, rr)) && tt == t && rr == rest) by {
                assert(PeerInfoView {
                    peers_online: p.peers_online,
                    peer_spots_left: p.peer_spots_left,
                    peer_names: p.peer_names,
                } =~= p);
            }
        },
        MessageTypeView::Private(n) => {
            assert(full[0] == 'P');
            assert(full.skip(1) =~= spec_enc_str(n) + rest);
            lemma_parse_enc_str(n, rest);
        },
        MessageTypeView::Text => {
            assert(full[0] == 'T');
            assert(full.skip(1) =~= rest);
        },
    }
}

/// The round-trip law: decoding the frame that encodes a message yields
/// exactly that message, for every message of every kind.
pub proof fn lemma_round_trip(m: MessageView)
    ensures
        spec_parse_msg(spec_encode(m)) == Some(m),
{
    let e_name = spec_enc_str(m.src_name);
    let e_addr = spec_enc_str(m.src_addr);
    let e_type = spec_enc_type(m.msg_type);
    let e_text = spec_enc_str(m.text);
    assert(spec_encode(m) =~= e_name + (e_addr + (e_type + e_text)));
    lemma_parse_enc_str(m.src_name, e_addr + (e_type + e_text));
    lemma_parse_enc_str(m.src_addr, e_type + e_text);
    lemma_parse_enc_type(m.msg_type, e_text);
    assert(e_text =~= e_text + Seq::<char>::empty());
    lemma_parse_enc_str(m.text, Seq::<char>::empty());
    assert(spec_parse_str(e_text) == Some((m.text, Seq::<char>::empty())));
    assert(spec_parse_msg(spec_encode(m)) matches Some(mm) && mm == m) by {
        assert(MessageView {
            src_name: m.src_name,
            src_addr: m.src_addr,
            msg_type: m.msg_type,
            text: m.text,
        } =~= m);
    }
}


fn encode_str_onto(out: &mut String, s: &str)
    ensures
        final(out)@ == old(out)@ + spec_enc_str(s@),
{
    let n = s.unicode_len();
    let mut i: usize = 0;
    proof {
        assert(s@.skip(0) =~= s@);
    }
    while i < n
        invariant
            n == s@.len(),
            0 <= i <= n,
            out@ + spec_enc_str(s@.skip(i as int)) == old(out)@ + spec_enc_str(s@),
        decreases n - i,
    {
        let ghost out0 = out@;
        out.append("c");
        let piece = s.substring_char(i, i + 1);
        out.append(piece);
        proof {
            reveal_strlit("c");
            assert(piece@ =~= seq![s@[i as int]]);
            assert(s@.skip(i as int)[0] == s@[i as int]);
            assert(s@.skip(i as int).skip(1) =~= s@.skip(i + 1));
            assert(out@ + spec_enc_str(s@.skip(i + 1)) =~= out0 + spec_enc_str(s@.skip(i as int)));
        }
        i = i + 1;
    }
    let ghost out0 = out@;
    out.append("e");
    proof {
        reveal_strlit("e");
        assert(s@.skip(n as int) =~= Seq::<char>::empty());
        assert(out@ =~= out0 + spec_enc_str(s@.skip(n as int)));
    }
}

fn encode_name_onto(out: &mut String, s: &str)
    ensures
        final(out)@ == old(out)@ + spec_enc_name_chars(s@),
{
    let n = s.unicode_len();
    let mut i: usize = 0;
    proof {
        assert(s@.skip(0) =~= s@);
    }
    while i < n
        invariant
            n == s@.len(),
            0 <= i <= n,
            out@ + spec_enc_name_chars(s@.skip(i as int)) == old(out)@ + spec_enc_name_chars(s@),
        decreases n - i,
    {
        let ghost out0 = out@;
        out.append("c");
        let piece = s.substring_char(i, i + 1);
        out.append(piece);
        proof {
            reveal_strlit("c");
            assert(piece@ =~= seq![s@[i as int]]);
            assert(s@.skip(i as int)[0] == s@[i as int]);
            assert(s@.skip(i as int).skip(1) =~= s@.skip(i + 1));
            assert(out@ + spec_enc_name_chars(s@.skip(i + 1)) =~= out0 + spec_enc_name_chars(
                s@.skip(i as int),
            ));
        }
        i = i + 1;
    }
    proof {
        assert(s@.skip(n as int) =~= Seq::<char>::empty());
        assert(out@ =~= out@ + spec_enc_name_chars(s@.skip(n as int)));
    }
}

fn encode_list_onto(out: &mut String, names: &Vec<String>)
    ensures
        final(out)@ == old(out)@ + spec_enc_list(names.deep_view()),
{
    let ghost dv = names.deep_view();
    let n = names.len();
    let mut i: usize = 0;
    proof {
        assert(dv.skip(0) =~= dv);
    }
    while i < n
        invariant
            dv == names.deep_view(),
            n == dv.len(),
            n == names@.len(),
            0 <= i <= n,
            out@ + spec_enc_list(dv.skip(i as int)) == old(out)@ + spec_enc_list(dv),
        decreases n - i,
    {
        let ghost out0 = out@;
        encode_name_onto(out, names[i].as_str());
        out.append("s");
        proof {
            reveal_strlit("s");
            assert(dv.skip(i as int)[0] == dv[i as int]);
            assert(dv[i as int] == names@[i as int]@);
            assert(dv.skip(i as int).skip(1) =~= dv.skip(i + 1));
            assert(out@ + spec_enc_list(dv.skip(i + 1)) =~= out0 + spec_enc_list(
                dv.skip(i as int),
            ));
        }
        i = i + 1;
    }
    let ghost out0 = out@;
    out.append("e");
    proof {
        reveal_strlit("e");
        assert(dv.skip(n as int) =~= Seq::<Seq<char>>::empty());
        assert(out@ =~= out0 + spec_enc_list(dv.skip(n as int)));
    }
}

fn encode_type_onto(out: &mut String, t: &MessageType)
    ensures
        final(out)@ == old(out)@ + spec_enc_type(t@),
{
    let ghost out0 = out@;
    match t {
        MessageType::NewPeer(nm) => {
            out.append("N");
            encode_str_onto(out, nm.as_str());
            proof {
                reveal_strlit("N");
                assert(out@ =~= out0 + spec_enc_type(t@));
            }
        },
        MessageType::DisconPeer(nm) => {
            out.append("D");
            encode_str_onto(out, nm.as_str());
            proof {
                reveal_strlit("D");
                assert(out@ =~= out0 + spec_enc_type(t@));
            }
        },
        MessageType::PeerNameAssign(nm) => {
            out.append("A");
            encode_str_onto(out, nm.as_str());
            proof {
                reveal_strlit("A");
                assert(out@ =~= out0 + spec_enc_type(t@));
            }
        },
        MessageType::PeerInfoRequest => {
            out.append("Q");
            proof {
                reveal_strlit("Q");
                assert(out@ =~= out0 + spec_enc_type(t@));
            }
        },
        MessageType::PeerInfoReply(p) => {
            out.append("R");
            let d1 = u32_to_dec(p.peers_online);
            encode_str_onto(out, d1.as_str());
            let d2 = u32_to_dec(p.peer_spots_left);
            encode_str_onto(out, d2.as_str());
            encode_list_onto(out, &p.peer_names);
            proof {
                reveal_strlit("R");
                assert(out@ =~= out0 + spec_enc_type(t@));
            }
        },
        MessageType::Private(nm) => {
            out.append("P");
            encode_str_onto(out, nm.as_str());
            proof {
                reveal_strlit("P");
                assert(out@ =~= out0 + spec_enc_type(t@));
            }
        },
        MessageType::Text => {
            out.append("T");
            proof {
                reveal_strlit("T");
                assert(out@ =~= out0 + spec_enc_type(t@));
            }
        },
    }
}

/// Builds the frame that carries a message.
pub fn encode(m: &Message) -> (f: String)
    ensures
        f@ == spec_encode(m@),
{
    let mut f = String::new();
    encode_str_onto(&mut f, m.src_name.as_str());
    encode_str_onto(&mut f, m.src_addr.as_str());
    encode_type_onto(&mut f, &m.msg_type);
    encode_str_onto(&mut f, m.text.as_str());
    proof {
        assert(f@ =~= spec_encode(m@));
    }
    f
}


/// Reads one framed string out of `f` starting at character `i`.
fn parse_str(f: &str, i: usize) -> (r: Option<(String, usize)>)
    requires
        i <= f@.len(),
    ensures
        match spec_parse_str(f@.skip(i as int)) {
            None => r is None,
            Some(tr) => match r {
                None => false,
                Some(p) => p.0@ == tr.0 && p.1 <= f@.len() && f@.skip(p.1 as int) == tr.1,
            },
        },
{
    let ghost i0 = i as int;
    let n = f.unicode_len();
    let mut out = String::new();
    let mut pos = i;
    while pos < n
        invariant
            n == f@.len(),
            i0 == i as int,
            0 <= i0 <= pos <= n,
            match spec_parse_str(f@.skip(pos as int)) {
                None => spec_parse_str(f@.skip(i0)) is None,
                Some(tr) => spec_parse_str(f@.skip(i0)) matches Some(tr0) && tr0.0 == out@ + tr.0
                    && tr0.1 == tr.1,
            },
        decreases n - pos,
    {
        let c = f.get_char(pos);
        proof {
            assert(f@.skip(pos as int)[0] == f@[pos as int]);
        }
        if c == 'e' {
            proof {
                assert(f@.skip(pos as int).skip(1) =~= f@.skip(pos + 1));
                assert(out@ + Seq::<char>::empty() =~= out@);
            }
            return Some((out, pos + 1));
        } else if c == 'c' && pos + 1 < n {
            let piece = f.substring_char(pos + 1, pos + 2);
            let ghost out0 = out@;
            out.append(piece);
            proof {
                assert(piece@ =~= seq![f@[pos as int + 1]]);
                assert(f@.skip(pos as int)[1] == f@[pos as int + 1]);
                assert(f@.skip(pos as int).skip(2) =~= f@.skip(pos + 2));
                match spec_parse_str(f@.skip(pos + 2)) {
                    Some(tr) => {
                        assert(out0 + (seq![f@[pos as int + 1]] + tr.0) =~= out@ + tr.0);
                    },
                    None => {},
                }
            }
            pos = pos + 2;
        } else {
            return None;
        }
    }
    proof {
        assert(f@.skip(pos as int).len() == 0);
    }
    None
}

/// Reads one framed name list out of `f` starting at character `i`.
fn parse_list(f: &str, i: usize) -> (r: Option<(Vec<String>, usize)>)
    requires
        i <= f@.len(),
    ensures
        match spec_parse_list(f@.skip(i as int)) {
            None => r is None,
            Some(tr) => r matches Some(p) && p.0.deep_view() == tr.0 && p.1 <= f@.len()
                && f@.skip(p.1 as int) == tr.1,
        },
{
    let ghost i0 = i as int;
    let n = f.unicode_len();
    let mut done: Vec<String> = Vec::new();
    let mut cur = String::new();
    let mut pos = i;
    proof {
        assert(done.deep_view() =~= Seq::<Seq<char>>::empty());
    }
    while pos < n
        invariant
            n == f@.len(),
            i0 == i as int,
            0 <= i0 <= pos <= n,
            match spec_parse_list(f@.skip(pos as int)) {
                None => spec_parse_list(f@.skip(i0)) is None,
                Some(tr) => if cur@.len() == 0 {
                    spec_parse_list(f@.skip(i0)) matches Some(tr0) && tr0.0 == done.deep_view()
                        + tr.0 && tr0.1 == tr.1
                } else if tr.0.len() > 0 {
                    spec_parse_list(f@.skip(i0)) matches Some(tr0) && tr0.0 == done.deep_view()
                        + seq![cur@ + tr.0[0]] + tr.0.skip(1) && tr0.1 == tr.1
                } else {
                    spec_parse_list(f@.skip(i0)) is None
                },
            },
        decreases n - pos,
    {
        let c = f.get_char(pos);
        proof {
            assert(f@.skip(pos as int)[0] == f@[pos as int]);
        }
        if c == 'e' {
            proof {
                assert(f@.skip(pos as int).skip(1) =~= f@.skip(pos + 1));
            }
            if cur.unicode_len() == 0 {
                proof {
                    assert(done.deep_view() + Seq::<Seq<char>>::empty() =~= done.deep_view());
                }
                return Some((done, pos + 1));
            } else {
                return None;
            }
        } else if c == 's' {
            proof {
                assert(f@.skip(pos as int).skip(1) =~= f@.skip(pos + 1));
            }
            let ghost done0 = done.deep_view();
            let ghost cur0 = cur@;
            done.push(cur);
            cur = String::new();
            proof {
                assert(done.deep_view() =~= done0.push(cur0));
                match spec_parse_list(f@.skip(pos + 1)) {
                    Some(tr) => {
                        let with_empty = seq![Seq::<char>::empty()] + tr.0;
                        assert(with_empty[0] == Seq::<char>::empty());
                        assert(with_empty.skip(1) =~= tr.0);
                        if cur0.len() == 0 {
                            assert(done0 + with_empty =~= done.deep_view() + tr.0);
                        } else {
                            assert(cur0 + with_empty[0] =~= cur0);
                            assert(done0 + seq![cur0 + with_empty[0]] + with_empty.skip(1)
                                =~= done.deep_view() + tr.0);
                        }
                    },
                    None => {},
                }
            }
            pos = pos + 1;
        } else if c == 'c' && pos + 1 < n {
            let piece = f.substring_char(pos + 1, pos + 2);
            let ghost cur0 = cur@;
            cur.append(piece);
            proof {
                let c1 = f@[pos as int + 1];
                assert(piece@ =~= seq![c1]);
                assert(f@.skip(pos as int)[1] == c1);
                assert(f@.skip(pos as int).skip(2) =~= f@.skip(pos + 2));
                match spec_parse_list(f@.skip(pos + 2)) {
                    Some(tr) => {
                        if tr.0.len() > 0 {
                            let shifted = seq![seq![c1] + tr.0[0]] + tr.0.skip(1);
                            assert(shifted.len() > 0);
                            assert(shifted[0] == seq![c1] + tr.0[0]);
                            assert(shifted.skip(1) =~= tr.0.skip(1));
                            assert(cur@ + tr.0[0] =~= cur0 + shifted[0]);
                            if cur0.len() == 0 {
                                assert(done.deep_view() + shifted =~= done.deep_view() + seq![
                                    cur@ + tr.0[0]
                                ] + tr.0.skip(1));
                            } else {
                                assert(done.deep_view() + seq![cur0 + shifted[0]] + shifted.skip(1)
                                    =~= done.deep_view() + seq![cur@ + tr.0[0]] + tr.0.skip(1));
                            }
                        }
                    },
                    None => {},
                }
            }
            pos = pos + 2;
        } else {
            return None;
        }
    }
    proof {
        assert(f@.skip(pos as int).len() == 0);
    }
    None
}

/// Reads one framed message kind out of `f` starting at character `i`.
fn parse_type(f: &str, i: usize) -> (r: Option<(MessageType, usize)>)
    requires
        i <= f@.len(),
    ensures
        match spec_parse_type(f@.skip(i as int)) {
            None => r is None,
            Some(tr) => r matches Some(p) && p.0@ == tr.0 && p.1 <= f@.len() && f@.skip(
                p.1 as int,
            ) == tr.1,
        },
{
    let n = f.unicode_len();
    if i == n {
        proof {
            assert(f@.skip(i as int).len() == 0);
        }
        return None;
    }
    let c = f.get_char(i);
    proof {
        assert(f@.skip(i as int)[0] == f@[i as int]);
        assert(f@.skip(i as int).skip(1) =~= f@.skip(i + 1));
    }
    if c == 'Q' {
        Some((MessageType::PeerInfoRequest, i + 1))
    } else if c == 'T' {
        Some((MessageType::Text, i + 1))
    } else if c == 'N' {
        match parse_str(f, i + 1) {
            None => None,
            Some((nm, j)) => Some((MessageType::NewPeer(nm), j)),
        }
    } else if c == 'D' {
        match parse_str(f, i + 1) {
            None => None,
            Some((nm, j)) => Some((MessageType::DisconPeer(nm), j)),
        }
    } else if c == 'A' {
        match parse_str(f, i + 1) {
            None => None,
            Some((nm, j)) => Some((MessageType::PeerNameAssign(nm), j)),
        }
    } else if c == 'P' {
        match parse_str(f, i + 1) {
            None => None,
            Some((nm, j)) => Some((MessageType::Private(nm), j)),
        }
    } else if c == 'R' {
        match parse_str(f, i + 1) {
            None => None,
            Some((d1, j1)) => match dec_to_u32(d1.as_str()) {
                None => None,
                Some(online) => match parse_str(f, j1) {
                    None => None,
                    Some((d2, j2)) => match dec_to_u32(d2.as_str()) {
                        None => None,
                        Some(spots) => match parse_list(f, j2) {
                            None => None,
                            Some((names, j3)) => Some(
                                (
                                    MessageType::PeerInfoReply(
                                        PeerInfo {
                                            peers_online: online,
                                            peer_spots_left: spots,
                                            peer_names: names,
                                        },
                                    ),
                                    j3,
                                ),
                            ),
                        },
                    },
                },
            },
        }
    } else {
        None
    }
}

/// Decodes one frame, or reports that it is not a well-formed encoding
/// of any message.
pub fn decode(f: &str) -> (r: Result<Message, DecodeError>)
    ensures
        match spec_parse_msg(f@) {
            None => r is Err,
            Some(mv) => r matches Ok(m) && m@ == mv,
        },
{
    proof {
        assert(f@.skip(0) =~= f@);
    }
    let n = f.unicode_len();
    match parse_str(f, 0) {
        None => Err(DecodeError),
        Some((src_name, i1)) => match parse_str(f, i1) {
            None => Err(DecodeError),
            Some((src_addr, i2)) => match parse_type(f, i2) {
                None => Err(DecodeError),
                Some((msg_type, i3)) => match parse_str(f, i3) {
                    None => Err(DecodeError),
                    Some((text, i4)) => {
                        if i4 == n {
                            proof {
                                assert(f@.skip(i4 as int).len() == 0);
                            }
                            Ok(Message { src_name, src_addr, msg_type, text })
                        } else {
                            proof {
                                assert(f@.skip(i4 as int).len() > 0);
                            }
                            Err(DecodeError)
                        }
                    },
                },
            },
        },
    }
}

} // verus!
