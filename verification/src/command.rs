//! The local command grammar: one trimmed line of operator input maps
//! to one outbound message. A line starting with `"pm: "` is a directed
//! message whose recipient is the second space-delimited token and whose
//! body is the third (words past the third token are dropped, as the
//! grammar demands); the literal prefix `"peerdatarequest"` asks for the
//! roster; anything else is a broadcast.

use vstd::prelude::*;

use crate::msg::{Message, MessageType, MessageView, MessageTypeView};

verus! {

/// The space-delimited tokens of a line. Splitting is on every single
/// space, so consecutive spaces yield empty tokens; there is always at
/// least one token.
pub open spec fn spec_tokens(s: Seq<char>) -> Seq<Seq<char>>
    decreases s.len(),
{
    if s.len() == 0 {
        seq![Seq::<char>::empty()]
    } else if s[0] == ' ' {
        seq![Seq::<char>::empty()] + spec_tokens(s.skip(1))
    } else {
        let t = spec_tokens(s.skip(1));
        seq![seq![s[0]] + t[0]] + t.skip(1)
    }
}

pub proof fn lemma_tokens_nonempty(s: Seq<char>)
    ensures
        spec_tokens(s).len() >= 1,
    decreases s.len(),
{
    if s.len() == 0 {
    } else {
        lemma_tokens_nonempty(s.skip(1));
    }
}

pub open spec fn spec_starts_with(s: Seq<char>, p: Seq<char>) -> bool {
    s.len() >= p.len() && s.take(p.len() as int) == p
}

/// What remains of a raw input line once one trailing line ending is
/// stripped: a final `'\n'` goes, and a `'\r'` just before it goes too.
pub open spec fn spec_normalize(s: Seq<char>) -> Seq<char> {
    if s.len() > 0 && s.last() == '\n' {
        let s1 = s.drop_last();
        if s1.len() > 0 && s1.last() == '\r' {
            s1.drop_last()
        } else {
            s1
        }
    } else {
        s
    }
}

pub open spec fn spec_is_pm(l: Seq<char>) -> bool {
    spec_starts_with(l, "pm: "@)
}

pub open spec fn spec_is_peerdata(l: Seq<char>) -> bool {
    spec_starts_with(l, "peerdatarequest"@)
}

/// The message a trimmed line produces, carrying the session's name and
/// address. Meaningful for a directed-message line only when the line
/// has at least three tokens.
pub open spec fn spec_command(l: Seq<char>, src_name: Seq<char>, src_addr: Seq<char>) -> MessageView {
    if spec_is_pm(l) {
        MessageView {
            src_name,
            src_addr,
            msg_type: MessageTypeView::Private(spec_tokens(l)[1]),
            text: spec_tokens(l)[2],
        }
    } else if spec_is_peerdata(l) {
        MessageView {
            src_name,
            src_addr,
            msg_type: MessageTypeView::PeerInfoRequest,
            text: Seq::empty(),
        }
    } else {
        MessageView { src_name, src_addr, msg_type: MessageTypeView::Text, text: l }
    }
}

/// A raw line can be turned into a message unless it is a
/// directed-message line with no body token; on such a line the grammar
/// is undefined.
pub open spec fn spec_line_ok(l: Seq<char>) -> bool {
    spec_is_pm(spec_normalize(l)) ==> spec_tokens(spec_normalize(l)).len() >= 3
}

fn str_starts_with(s: &str, p: &str) -> (b: bool)
    ensures
        b == spec_starts_with(s@, p@),
{
    let sn = s.unicode_len();
    let pn = p.unicode_len();
    if sn < pn {
        return false;
    }
    let mut i: usize = 0;
    while i < pn
        invariant
            sn == s@.len(),
            pn == p@.len(),
            pn <= sn,
            0 <= i <= pn,
            forall|j: int| 0 <= j < i ==> s@[j] == p@[j],
        decreases pn - i,
    {
        if s.get_char(i) != p.get_char(i) {
            proof {
                assert(s@.take(pn as int)[i as int] == s@[i as int]);
            }
            return false;
        }
        i = i + 1;
    }
    proof {
        assert(s@.take(pn as int) =~= p@);
    }
    true
}

/// Splits a line into its space-delimited tokens.
fn tokenize(s: &str) -> (v: Vec<String>)
    ensures
        v.deep_view() == spec_tokens(s@),
        v@.len() == spec_tokens(s@).len(),
{
    let n = s.unicode_len();
    let mut done: Vec<String> = Vec::new();
    let mut cur = String::new();
    let mut i: usize = 0;
    proof {
        assert(s@.skip(0) =~= s@);
        assert(done.deep_view() =~= Seq::<Seq<char>>::empty());
        let t = spec_tokens(s@);
        lemma_tokens_nonempty(s@);
        assert(Seq::<char>::empty() + t[0] =~= t[0]);
        assert(done.deep_view() + seq![cur@ + t[0]] + t.skip(1) =~= seq![t[0]] + t.skip(1));
        assert(seq![t[0]] + t.skip(1) =~= t);
    }
    while i < n
        invariant
            n == s@.len(),
            0 <= i <= n,
            ({
                let t = spec_tokens(s@.skip(i as int));
                t.len() >= 1 && spec_tokens(s@) == done.deep_view() + seq![cur@ + t[0]] + t.skip(
                    1,
                )
            }),
        decreases n - i,
    {
        proof {
            lemma_tokens_nonempty(s@.skip(i + 1));
            assert(s@.skip(i as int)[0] == s@[i as int]);
            assert(s@.skip(i as int).skip(1) =~= s@.skip(i + 1));
        }
        let ghost t = spec_tokens(s@.skip(i as int));
        let ghost t1 = spec_tokens(s@.skip(i + 1));
        let c = s.get_char(i);
        if c == ' ' {
            let ghost done0 = done.deep_view();
            let ghost cur0 = cur@;
            done.push(cur);
            cur = String::new();
            proof {
                assert(done.deep_view() =~= done0.push(cur0));
                assert(t[0] == Seq::<char>::empty());
                assert(t.skip(1) =~= t1);
                assert(cur0 + t[0] =~= cur0);
                assert(t1 =~= seq![t1[0]] + t1.skip(1));
                assert(done0.push(cur0) + seq![Seq::<char>::empty() + t1[0]] + t1.skip(1)
                    =~= done0 + seq![cur0 + t[0]] + t.skip(1));
            }
        } else {
            let piece = s.substring_char(i, i + 1);
            let ghost cur0 = cur@;
            cur.append(piece);
            proof {
                assert(piece@ =~= seq![s@[i as int]]);
                assert(t[0] == seq![s@[i as int]] + t1[0]);
                assert(t.skip(1) =~= t1.skip(1));
                assert(cur0 + t[0] =~= cur@ + t1[0]);
                assert(done.deep_view() + seq![cur0 + t[0]] + t.skip(1) =~= done.deep_view()
                    + seq![cur@ + t1[0]] + t1.skip(1));
            }
        }
        i = i + 1;
    }
    proof {
        assert(s@.skip(n as int) =~= Seq::<char>::empty());
        let t = spec_tokens(s@.skip(n as int));
        assert(t =~= seq![Seq::<char>::empty()]);
        assert(t.skip(1) =~= Seq::<Seq<char>>::empty());
        assert(cur@ + t[0] =~= cur@);
        assert(done.deep_view() + seq![cur@ + t[0]] + t.skip(1) =~= done.deep_view().push(cur@));
    }
    let ghost done0 = done.deep_view();
    let ghost cur0 = cur@;
    done.push(cur);
    proof {
        assert(done.deep_view() =~= done0.push(cur0));
    }
    done
}

/// Strips one trailing line ending from a raw input line.
pub fn normalize_line(s: &str) -> (r: String)
    ensures
        r@ == spec_normalize(s@),
{
    let n = s.unicode_len();
    let mut end = n;
    if end > 0 && s.get_char(end - 1) == '\n' {
        end = end - 1;
        if end > 0 && s.get_char(end - 1) == '\r' {
            end = end - 1;
        }
    }
    let piece = s.substring_char(0, end);
    proof {
        if n > 0 && s@.last() == '\n' {
            assert(s@.drop_last() =~= s@.subrange(0, n - 1));
            if n - 1 > 0 && s@.drop_last().last() == '\r' {
                assert(s@.drop_last().drop_last() =~= s@.subrange(0, n - 2));
            }
        } else {
            assert(s@.subrange(0, n as int) =~= s@);
        }
    }
    piece.to_owned()
}

/// Whether a raw line can be turned into a message; a directed-message
/// line without a body token cannot, and the input loop fails on it.
pub fn line_ok(line: &str) -> (b: bool)
    ensures
        b == spec_line_ok(line@),
{
    let l = normalize_line(line);
    if str_starts_with(l.as_str(), "pm: ") {
        let tokens = tokenize(l.as_str());
        tokens.len() >= 3
    } else {
        true
    }
}

/// Maps one trimmed line to the outbound message it denotes, stamped
/// with the session's name and address.
pub fn parse_command(line: &str, src_name: &str, src_addr: &str) -> (m: Message)
    requires
        spec_is_pm(line@) ==> spec_tokens(line@).len() >= 3,
    ensures
        m@ == spec_command(line@, src_name@, src_addr@),
{
    let m = if str_starts_with(line, "pm: ") {
        let mut tokens = tokenize(line);
        let body = tokens.remove(2);
        let recv = tokens.remove(1);
        proof {
            assert(recv@ == spec_tokens(line@)[1]);
            assert(body@ == spec_tokens(line@)[2]);
        }
        Message {
            src_name: src_name.to_owned(),
            src_addr: src_addr.to_owned(),
            msg_type: MessageType::Private(recv),
            text: body,
        }
    } else if str_starts_with(line, "peerdatarequest") {
        Message {
            src_name: src_name.to_owned(),
            src_addr: src_addr.to_owned(),
            msg_type: MessageType::PeerInfoRequest,
            text: String::new(),
        }
    } else {
        Message {
            src_name: src_name.to_owned(),
            src_addr: src_addr.to_owned(),
            msg_type: MessageType::Text,
            text: line.to_owned(),
        }
    };
    proof {
        assert(m@ =~= spec_command(line@, src_name@, src_addr@));
    }
    m
}

/// Lines ending in `"\r\n"` or `"\n"` are parsed exactly as the same
/// content without the terminator: all three forms normalize to the
/// same trimmed line, so they denote the same message.
pub proof fn lemma_line_ending_normalization(s: Seq<char>, name: Seq<char>, addr: Seq<char>)
    ensures
        spec_normalize(s + seq!['\r', '\n']) == s,
        s.len() == 0 || s.last() != '\r' ==> spec_normalize(s + seq!['\n']) == s,
        s.len() == 0 || s.last() != '\n' ==> spec_normalize(s) == s,
        (s.len() == 0 || (s.last() != '\r' && s.last() != '\n')) ==> spec_command(
            spec_normalize(s + seq!['\n']),
            name,
            addr,
        ) == spec_command(spec_normalize(s + seq!['\r', '\n']), name, addr) && spec_command(
            spec_normalize(s + seq!['\n']),
            name,
            addr,
        ) == spec_command(spec_normalize(s), name, addr),
{
    let srn = s + seq!['\r', '\n'];
    assert(srn.last() == '\n');
    assert(srn.drop_last() =~= s + seq!['\r']);
    assert((s + seq!['\r']).last() == '\r');
    assert((s + seq!['\r']).drop_last() =~= s);
    let sn = s + seq!['\n'];
    assert(sn.last() == '\n');
    assert(sn.drop_last() =~= s);
}

} // verus!
