//! The frame in which a metadata reply travels: a JSON object holding the
//! normalized identifier and the video details. The encoder prints that
//! frame; the decoder is proved to be the exact inverse on every frame the
//! encoder can print, so nothing is lost in transit.

use vstd::prelude::*;
use crate::model::{MetadataView, ResponseView, VideoMetadata, VideoResponse};
use crate::normalize::{match_lit, matches_at};
use crate::text::{chars_string, str_chars};

verus! {

/// How one character is written inside a JSON string: the quote, the
/// backslash and the three common whitespace controls take their short
/// escape, every other control character below U+0020 its two-digit
/// hexadecimal escape, and every remaining character stands for itself.
pub open spec fn esc(c: char) -> Seq<char> {
    if c == '"' {
        seq!['\\', '"']
    } else if c == '\\' {
        seq!['\\', '\\']
    } else if c == '\n' {
        seq!['\\', 'n']
    } else if c == '\r' {
        seq!['\\', 'r']
    } else if c == '\t' {
        seq!['\\', 't']
    } else if (c as u32) < 32 {
        seq!['\\', 'u', '0', '0', hex_digit((c as u32 / 16) as int), hex_digit((c as u32 % 16) as int)]
    } else {
        seq![c]
    }
}

/// The lowercase hexadecimal digit characters.
pub open spec fn hex_digit(d: int) -> char {
    if d == 0 { '0' }
    else if d == 1 { '1' }
    else if d == 2 { '2' }
    else if d == 3 { '3' }
    else if d == 4 { '4' }
    else if d == 5 { '5' }
    else if d == 6 { '6' }
    else if d == 7 { '7' }
    else if d == 8 { '8' }
    else if d == 9 { '9' }
    else if d == 10 { 'a' }
    else if d == 11 { 'b' }
    else if d == 12 { 'c' }
    else if d == 13 { 'd' }
    else if d == 14 { 'e' }
    else { 'f' }
}

/// The value of a lowercase hexadecimal digit character; negative for any
/// other character.
pub open spec fn hex_val(c: char) -> int {
    if c == '0' { 0 }
    else if c == '1' { 1 }
    else if c == '2' { 2 }
    else if c == '3' { 3 }
    else if c == '4' { 4 }
    else if c == '5' { 5 }
    else if c == '6' { 6 }
    else if c == '7' { 7 }
    else if c == '8' { 8 }
    else if c == '9' { 9 }
    else if c == 'a' { 10 }
    else if c == 'b' { 11 }
    else if c == 'c' { 12 }
    else if c == 'd' { 13 }
    else if c == 'e' { 14 }
    else if c == 'f' { 15 }
    else { -1 }
}

/// The control character a two-digit escape code stands for, where the
/// encoder uses that form: codes below 32 other than tab, newline and
/// carriage return, which take their short escapes.
pub open spec fn ctl_char(v: int) -> Option<char> {
    if 0 <= v < 32 && v != 9 && v != 10 && v != 13 {
        Some(v as char)
    } else {
        None
    }
}

/// The escaped form of a whole string body.
pub open spec fn escape(s: Seq<char>) -> Seq<char>
    decreases s.len(),
{
    if s.len() == 0 {
        Seq::empty()
    } else {
        esc(s[0]) + escape(s.subrange(1, s.len() as int))
    }
}

/// The character an escape code stands for, if it is one the encoder uses.
pub open spec fn unesc_code(c: char) -> Option<char> {
    if c == '"' {
        Some('"')
    } else if c == '\\' {
        Some('\\')
    } else if c == 'n' {
        Some('\n')
    } else if c == 'r' {
        Some('\r')
    } else if c == 't' {
        Some('\t')
    } else {
        None
    }
}

/// The decimal digit characters.
pub open spec fn dec_digit(d: int) -> char {
    if d == 0 { '0' }
    else if d == 1 { '1' }
    else if d == 2 { '2' }
    else if d == 3 { '3' }
    else if d == 4 { '4' }
    else if d == 5 { '5' }
    else if d == 6 { '6' }
    else if d == 7 { '7' }
    else if d == 8 { '8' }
    else { '9' }
}

pub open spec fn is_dec_digit(c: char) -> bool {
    '0' as u32 <= c as u32 && c as u32 <= '9' as u32
}

/// The value of a digit character.
pub open spec fn dec_val(c: char) -> int {
    c as u32 - '0' as u32
}

/// The decimal notation of a number, most significant digit first.
pub open spec fn dec_of(n: nat) -> Seq<char>
    decreases n,
{
    if n < 10 {
        seq![dec_digit(n as int)]
    } else {
        dec_of(n / 10) + seq![dec_digit((n % 10) as int)]
    }
}

/// Deterministic parse of a digit run, accumulating left to right and
/// refusing values beyond `u64`.
pub open spec fn sp_digits(s: Seq<char>, p: int, acc: int) -> Option<(int, int)>
    decreases s.len() - p,
{
    if 0 <= p && p < s.len() && is_dec_digit(s[p]) {
        if acc * 10 + dec_val(s[p]) <= u64::MAX as int {
            sp_digits(s, p + 1, acc * 10 + dec_val(s[p]))
        } else {
            None
        }
    } else {
        Some((acc, p))
    }
}

/// Deterministic parse of a decimal number without leading zeros.
pub open spec fn sp_u64(s: Seq<char>, p: int) -> Option<(int, int)> {
    if 0 <= p && p < s.len() && s[p] == '0' && !(p + 1 < s.len() && is_dec_digit(s[p + 1])) {
        Some((0, p + 1))
    } else if 0 <= p && p < s.len() && is_dec_digit(s[p]) && s[p] != '0' {
        sp_digits(s, p, 0)
    } else {
        None
    }
}

/// Deterministic parse of a string body up to and including its closing
/// quote, undoing the encoder's escapes.
pub open spec fn sp_string(s: Seq<char>, p: int) -> Option<(Seq<char>, int)>
    decreases s.len() - p,
{
    if !(0 <= p && p < s.len()) {
        None
    } else if s[p] == '"' {
        Some((Seq::empty(), p + 1))
    } else if s[p] == '\\' {
        if p + 1 < s.len() {
            match unesc_code(s[p + 1]) {
                Some(c) => match sp_string(s, p + 2) {
                    Some((t, j)) => Some((seq![c] + t, j)),
                    None => None,
                },
                None => if s[p + 1] == 'u' && p + 5 < s.len() && s[p + 2] == '0'
                    && s[p + 3] == '0' && hex_val(s[p + 4]) >= 0 && hex_val(s[p + 5]) >= 0 {
                    match ctl_char(hex_val(s[p + 4]) * 16 + hex_val(s[p + 5])) {
                        Some(c) => match sp_string(s, p + 6) {
                            Some((t, j)) => Some((seq![c] + t, j)),
                            None => None,
                        },
                        None => None,
                    }
                } else {
                    None
                },
            }
        } else {
            None
        }
    } else {
        match sp_string(s, p + 1) {
            Some((t, j)) => Some((seq![s[p]] + t, j)),
            None => None,
        }
    }
}

/// The reply frame printed for a response: its exact character sequence.
pub open spec fn json_of_response(r: ResponseView) -> Seq<char> {
    "{\"id\":\""@ + escape(r.id) + "\""@
    + ",\"details\":{\"title\":\""@ + escape(r.details.title) + "\""@
    + ",\"author\":\""@ + escape(r.details.author) + "\""@
    + ",\"duration_seconds\":"@ + dec_of(r.details.duration_seconds as nat)
    + "}}"@
}

/// Deterministic parse of a whole reply frame.
pub open spec fn sp_response(s: Seq<char>) -> Option<ResponseView> {
    let l1 = "{\"id\":\""@;
    let l2 = ",\"details\":{\"title\":\""@;
    let l3 = ",\"author\":\""@;
    let l4 = ",\"duration_seconds\":"@;
    let l5 = "}}"@;
    if matches_at(s, 0, l1) {
        match sp_string(s, l1.len() as int) {
            Some((id, p1)) => if matches_at(s, p1, l2) {
                match sp_string(s, p1 + l2.len()) {
                    Some((title, p2)) => if matches_at(s, p2, l3) {
                        match sp_string(s, p2 + l3.len()) {
                            Some((author, p3)) => if matches_at(s, p3, l4) {
                                match sp_u64(s, p3 + l4.len()) {
                                    Some((n, p4)) => if matches_at(s, p4, l5)
                                        && p4 + l5.len() == s.len() && 0 <= n <= u64::MAX as int {
                                        Some(ResponseView {
                                            id,
                                            details: MetadataView {
                                                title,
                                                author,
                                                duration_seconds: n as u64,
                                            },
                                        })
                                    } else {
                                        None
                                    },
                                    None => None,
                                }
                            } else {
                                None
                            },
                            None => None,
                        }
                    } else {
                        None
                    },
                    None => None,
                }
            } else {
                None
            },
            None => None,
        }
    } else {
        None
    }
}

proof fn lemma_subrange_index(s: Seq<char>, p: int, w: Seq<char>)
    requires
        0 <= p,
        p + w.len() <= s.len(),
        s.subrange(p, p + w.len()) == w,
    ensures
        forall|i: int| 0 <= i < w.len() ==> s[p + i] == w[i],
{
    assert forall|i: int| 0 <= i < w.len() implies s[p + i] == w[i] by {
        assert(s.subrange(p, p + w.len())[i] == s[p + i]);
    }
}

proof fn lemma_concat_extract(pre: Seq<char>, w: Seq<char>, post: Seq<char>)
    ensures
        (pre + w + post).subrange(pre.len() as int, pre.len() as int + w.len()) == w,
{
    assert((pre + w + post).subrange(pre.len() as int, pre.len() as int + w.len()) =~= w);
}

proof fn lemma_sp_string_complete(s: Seq<char>, p: int, t: Seq<char>)
    requires
        0 <= p,
        p + escape(t).len() < s.len(),
        s.subrange(p, p + escape(t).len()) == escape(t),
        s[p + escape(t).len()] == '"',
    ensures
        sp_string(s, p) == Some((t, p + escape(t).len() + 1)),
    decreases t.len(),
{
    lemma_subrange_index(s, p, escape(t));
    if t.len() == 0 {
        assert(escape(t) == Seq::<char>::empty());
        assert(s[p] == '"');
        assert(sp_string(s, p) == Some((Seq::<char>::empty(), p + 1)));
    } else {
        let c = t[0];
        let t2 = t.subrange(1, t.len() as int);
        let e = esc(c);
        let e2 = escape(t2);
        assert(escape(t) == e + e2);
        assert forall|i: int| 0 <= i < e2.len() implies s[(p + e.len()) + i] == e2[i] by {
            assert(s[p + (e.len() + i)] == escape(t)[e.len() + i]);
            assert(escape(t)[e.len() + i] == e2[i]);
        }
        assert(s.subrange(p + e.len(), p + e.len() + e2.len()) =~= e2);
        assert(s[(p + e.len()) + e2.len()] == '"');
        lemma_sp_string_complete(s, p + e.len(), t2);
        assert(escape(t).len() == e.len() + e2.len());
        assert(s[p + 0] == escape(t)[0]);
        assert(escape(t)[0] == e[0]);
        if c == '"' || c == '\\' || c == '\n' || c == '\r' || c == '\t' {
            assert(e.len() == 2);
            assert(s[p] == e[0]);
            assert(s[p + 1] == escape(t)[1]);
            assert(escape(t)[1] == e[1]);
            assert(s[p + 1] == e[1]);
            assert(s[p] == '\\');
            assert(unesc_code(s[p + 1]) == Some(c));
            assert(sp_string(s, p) == Some((seq![c] + t2, p + escape(t).len() + 1)));
        } else if (c as u32) < 32 {
            let hi = (c as u32 / 16) as int;
            let lo = (c as u32 % 16) as int;
            assert(e.len() == 6);
            assert(s[p] == e[0]);
            assert(s[p + 1] == escape(t)[1]);
            assert(escape(t)[1] == e[1]);
            assert(s[p + 2] == escape(t)[2]);
            assert(escape(t)[2] == e[2]);
            assert(s[p + 3] == escape(t)[3]);
            assert(escape(t)[3] == e[3]);
            assert(s[p + 4] == escape(t)[4]);
            assert(escape(t)[4] == e[4]);
            assert(s[p + 5] == escape(t)[5]);
            assert(escape(t)[5] == e[5]);
            assert(s[p] == '\\');
            assert(s[p + 1] == 'u');
            assert(unesc_code('u') is None);
            assert(0 <= hi < 2 && 0 <= lo < 16);
            assert(hex_val(s[p + 4]) == hi);
            assert(hex_val(s[p + 5]) == lo);
            assert(hex_val(s[p + 4]) * 16 + hex_val(s[p + 5]) == c as u32);
            vstd::utf8::char_u32_cast(c, c as u32);
            assert(c == (c as u32) as char);
            assert(9u32 as char == '\t');
            assert(10u32 as char == '\n');
            assert(13u32 as char == '\r');
            assert(c as u32 != 9 && c as u32 != 10 && c as u32 != 13);
            assert(((c as u32) as int) as char == (c as u32) as char);
            assert(ctl_char((c as u32) as int) == Some(c));
            assert(sp_string(s, p) == Some((seq![c] + t2, p + escape(t).len() + 1)));
        } else {
            assert(e == seq![c]);
            assert(s[p] == e[0]);
            assert(s[p] == c);
            assert(sp_string(s, p) == Some((seq![s[p]] + t2, p + escape(t).len() + 1)));
        }
        assert(seq![c] + t2 =~= t);
    }
}

/// Powers of ten.
pub open spec fn pow10(k: nat) -> int
    decreases k,
{
    if k == 0 {
        1
    } else {
        10 * pow10((k - 1) as nat)
    }
}

proof fn lemma_pow10_pos(k: nat)
    ensures
        pow10(k) >= 1,
    decreases k,
{
    if k > 0 {
        lemma_pow10_pos((k - 1) as nat);
    }
}

proof fn lemma_dec_of_props(n: nat)
    ensures
        dec_of(n).len() >= 1,
        forall|i: int| 0 <= i < dec_of(n).len() ==> #[trigger] is_dec_digit(dec_of(n)[i]),
        n > 0 ==> dec_of(n)[0] != '0',
        n < 10 ==> dec_of(n).len() == 1,
    decreases n,
{
    if n < 10 {
        assert(is_dec_digit(dec_digit(n as int)));
    } else {
        lemma_dec_of_props(n / 10);
        let head = dec_of(n / 10);
        let last = seq![dec_digit((n % 10) as int)];
        assert(dec_of(n) == head + last);
        assert forall|i: int| 0 <= i < dec_of(n).len() implies #[trigger] is_dec_digit(
            dec_of(n)[i],
        ) by {
            if i < head.len() {
                assert(dec_of(n)[i] == head[i]);
            } else {
                assert(dec_of(n)[i] == dec_digit((n % 10) as int));
                assert(is_dec_digit(dec_digit((n % 10) as int)));
            }
        }
        assert(dec_of(n)[0] == head[0]);
    }
}

proof fn lemma_sp_digits_run(s: Seq<char>, p: int, acc: int, n: nat)
    requires
        0 <= p,
        0 <= acc,
        p + dec_of(n).len() <= s.len(),
        s.subrange(p, p + dec_of(n).len()) == dec_of(n),
        acc * pow10(dec_of(n).len() as nat) + n <= u64::MAX as int,
    ensures
        sp_digits(s, p, acc) == sp_digits(
            s,
            p + dec_of(n).len(),
            acc * pow10(dec_of(n).len() as nat) + n,
        ),
    decreases n,
{
    lemma_subrange_index(s, p, dec_of(n));
    lemma_dec_of_props(n);
    if n < 10 {
        assert(s[p + 0] == dec_of(n)[0]);
        assert(s[p] == dec_digit(n as int));
        assert(is_dec_digit(s[p]));
        assert(dec_val(dec_digit(n as int)) == n);
        assert(pow10(0nat) == 1);
        assert(pow10(1nat) == 10);
        assert(sp_digits(s, p, acc) == sp_digits(s, p + 1, acc * 10 + n));
    } else {
        let m = n / 10;
        let d = n % 10;
        let hd = dec_of(m);
        let l = dec_of(n).len() as int;
        assert(dec_of(n) == hd + seq![dec_digit(d as int)]);
        assert(hd.len() == l - 1);
        lemma_dec_of_props(m);
        assert forall|i: int| 0 <= i < hd.len() implies s[p + i] == hd[i] by {
            assert(s[p + i] == dec_of(n)[i]);
            assert(dec_of(n)[i] == hd[i]);
        }
        assert(s.subrange(p, p + hd.len()) =~= hd);
        lemma_pow10_pos(hd.len() as nat);
        assert(pow10(dec_of(n).len() as nat) == 10 * pow10(hd.len() as nat));
        let acc2 = acc * pow10(hd.len() as nat) + m;
        assert(acc2 * 10 + d == acc * pow10(dec_of(n).len() as nat) + n) by (nonlinear_arith)
            requires
                acc2 == acc * pow10(hd.len() as nat) + m,
                pow10(dec_of(n).len() as nat) == 10 * pow10(hd.len() as nat),
                n == 10 * m + d,
        {};
        assert(acc2 >= 0) by (nonlinear_arith)
            requires
                acc >= 0,
                m >= 0,
                pow10(hd.len() as nat) >= 1,
                acc2 == acc * pow10(hd.len() as nat) + m,
        {};
        assert(acc * pow10(hd.len() as nat) + m <= u64::MAX as int);
        lemma_sp_digits_run(s, p, acc, m);
        assert(s[p + (l - 1)] == dec_of(n)[l - 1]);
        assert(dec_of(n)[l - 1] == dec_digit(d as int));
        assert(is_dec_digit(dec_digit(d as int)));
        assert(dec_val(dec_digit(d as int)) == d);
        assert(sp_digits(s, p + (l - 1), acc2) == sp_digits(s, p + l, acc2 * 10 + d));
    }
}

proof fn lemma_sp_u64_complete(s: Seq<char>, p: int, n: u64)
    requires
        0 <= p,
        p + dec_of(n as nat).len() <= s.len(),
        s.subrange(p, p + dec_of(n as nat).len()) == dec_of(n as nat),
        p + dec_of(n as nat).len() == s.len() || !is_dec_digit(s[p + dec_of(n as nat).len()]),
    ensures
        sp_u64(s, p) == Some((n as int, p + dec_of(n as nat).len())),
{
    lemma_subrange_index(s, p, dec_of(n as nat));
    lemma_dec_of_props(n as nat);
    if n == 0 {
        assert(s[p + 0] == dec_of(0nat)[0]);
        assert(s[p] == dec_digit(0));
        assert(dec_of(0nat).len() == 1);
        assert(sp_u64(s, p) == Some((0int, p + 1)));
    } else {
        assert(s[p + 0] == dec_of(n as nat)[0]);
        assert(s[p] == dec_of(n as nat)[0]);
        assert(is_dec_digit(s[p]));
        assert(s[p] != '0');
        lemma_pow10_pos(dec_of(n as nat).len() as nat);
        assert(0 * pow10(dec_of(n as nat).len() as nat) + n as int <= u64::MAX as int);
        lemma_sp_digits_run(s, p, 0, n as nat);
        assert(sp_digits(s, p + dec_of(n as nat).len(), n as int)
            == Some((n as int, p + dec_of(n as nat).len())));
    }
}

/// Positions inside the frame printed for `m`: after the identifier
/// string, the title string, the author string and the duration.
pub open spec fn rt_p1(m: ResponseView) -> int {
    "{\"id\":\""@.len() as int + escape(m.id).len() + 1
}

pub open spec fn rt_p2(m: ResponseView) -> int {
    rt_p1(m) + ",\"details\":{\"title\":\""@.len() + escape(m.details.title).len() + 1
}

pub open spec fn rt_p3(m: ResponseView) -> int {
    rt_p2(m) + ",\"author\":\""@.len() + escape(m.details.author).len() + 1
}

pub open spec fn rt_p4(m: ResponseView) -> int {
    rt_p3(m) + ",\"duration_seconds\":"@.len() + dec_of(m.details.duration_seconds as nat).len()
}

#[verifier::rlimit(100)]
proof fn lemma_rt_id(m: ResponseView)
    ensures
        matches_at(json_of_response(m), 0, "{\"id\":\""@),
        sp_string(json_of_response(m), "{\"id\":\""@.len() as int) == Some((m.id, rt_p1(m))),
{
    reveal_strlit("\"");
    let a = "{\"id\":\""@;
    let q = "\""@;
    let b = ",\"details\":{\"title\":\""@;
    let c = ",\"author\":\""@;
    let d = ",\"duration_seconds\":"@;
    let e = "}}"@;
    let e1 = escape(m.id);
    let e2 = escape(m.details.title);
    let e3 = escape(m.details.author);
    let nd = dec_of(m.details.duration_seconds as nat);
    let s = json_of_response(m);
    let u1 = a + e1;
    assert(s =~= Seq::<char>::empty() + a + (e1 + q + b + e2 + q + c + e3 + q + d + nd + e));
    lemma_concat_extract(Seq::<char>::empty(), a, e1 + q + b + e2 + q + c + e3 + q + d + nd + e);
    assert(matches_at(s, 0, a));
    assert(s =~= a + e1 + (q + b + e2 + q + c + e3 + q + d + nd + e));
    lemma_concat_extract(a, e1, q + b + e2 + q + c + e3 + q + d + nd + e);
    assert(s =~= u1 + q + (b + e2 + q + c + e3 + q + d + nd + e));
    lemma_concat_extract(u1, q, b + e2 + q + c + e3 + q + d + nd + e);
    lemma_subrange_index(s, u1.len() as int, q);
    assert(s[a.len() as int + e1.len() + 0] == q[0]);
    assert(s[a.len() as int + e1.len()] == '"');
    lemma_sp_string_complete(s, a.len() as int, m.id);
}

#[verifier::rlimit(100)]
proof fn lemma_rt_title(m: ResponseView)
    ensures
        matches_at(json_of_response(m), rt_p1(m), ",\"details\":{\"title\":\""@),
        sp_string(json_of_response(m), rt_p1(m) + ",\"details\":{\"title\":\""@.len())
            == Some((m.details.title, rt_p2(m))),
{
    reveal_strlit("\"");
    let a = "{\"id\":\""@;
    let q = "\""@;
    let b = ",\"details\":{\"title\":\""@;
    let c = ",\"author\":\""@;
    let d = ",\"duration_seconds\":"@;
    let e = "}}"@;
    let e1 = escape(m.id);
    let e2 = escape(m.details.title);
    let e3 = escape(m.details.author);
    let nd = dec_of(m.details.duration_seconds as nat);
    let s = json_of_response(m);
    let u2 = a + e1 + q;
    let u3 = u2 + b;
    let u4 = u3 + e2;
    assert(u2.len() == rt_p1(m));
    assert(s =~= u2 + b + (e2 + q + c + e3 + q + d + nd + e));
    lemma_concat_extract(u2, b, e2 + q + c + e3 + q + d + nd + e);
    assert(matches_at(s, rt_p1(m), b));
    assert(s =~= u3 + e2 + (q + c + e3 + q + d + nd + e));
    lemma_concat_extract(u3, e2, q + c + e3 + q + d + nd + e);
    assert(s =~= u4 + q + (c + e3 + q + d + nd + e));
    lemma_concat_extract(u4, q, c + e3 + q + d + nd + e);
    lemma_subrange_index(s, u4.len() as int, q);
    assert(s[u3.len() as int + e2.len() + 0] == q[0]);
    assert(s[u3.len() as int + e2.len()] == '"');
    lemma_sp_string_complete(s, u3.len() as int, m.details.title);
}

#[verifier::rlimit(100)]
proof fn lemma_rt_author(m: ResponseView)
    ensures
        matches_at(json_of_response(m), rt_p2(m), ",\"author\":\""@),
        sp_string(json_of_response(m), rt_p2(m) + ",\"author\":\""@.len())
            == Some((m.details.author, rt_p3(m))),
{
    reveal_strlit("\"");
    let a = "{\"id\":\""@;
    let q = "\""@;
    let b = ",\"details\":{\"title\":\""@;
    let c = ",\"author\":\""@;
    let d = ",\"duration_seconds\":"@;
    let e = "}}"@;
    let e1 = escape(m.id);
    let e2 = escape(m.details.title);
    let e3 = escape(m.details.author);
    let nd = dec_of(m.details.duration_seconds as nat);
    let s = json_of_response(m);
    let u5 = a + e1 + q + b + e2 + q;
    let u6 = u5 + c;
    let u7 = u6 + e3;
    assert(u5.len() == rt_p2(m));
    assert(s =~= u5 + c + (e3 + q + d + nd + e));
    lemma_concat_extract(u5, c, e3 + q + d + nd + e);
    assert(matches_at(s, rt_p2(m), c));
    assert(s =~= u6 + e3 + (q + d + nd + e));
    lemma_concat_extract(u6, e3, q + d + nd + e);
    assert(s =~= u7 + q + (d + nd + e));
    lemma_concat_extract(u7, q, d + nd + e);
    lemma_subrange_index(s, u7.len() as int, q);
    assert(s[u6.len() as int + e3.len() + 0] == q[0]);
    assert(s[u6.len() as int + e3.len()] == '"');
    lemma_sp_string_complete(s, u6.len() as int, m.details.author);
}

#[verifier::rlimit(100)]
proof fn lemma_rt_duration(m: ResponseView)
    ensures
        matches_at(json_of_response(m), rt_p3(m), ",\"duration_seconds\":"@),
        sp_u64(json_of_response(m), rt_p3(m) + ",\"duration_seconds\":"@.len())
            == Some((m.details.duration_seconds as int, rt_p4(m))),
        matches_at(json_of_response(m), rt_p4(m), "}}"@),
        rt_p4(m) + "}}"@.len() == json_of_response(m).len(),
{
    reveal_strlit("}}");
    reveal_strlit("\"");
    let a = "{\"id\":\""@;
    let q = "\""@;
    let b = ",\"details\":{\"title\":\""@;
    let c = ",\"author\":\""@;
    let d = ",\"duration_seconds\":"@;
    let e = "}}"@;
    let e1 = escape(m.id);
    let e2 = escape(m.details.title);
    let e3 = escape(m.details.author);
    let nd = dec_of(m.details.duration_seconds as nat);
    let s = json_of_response(m);
    let u8 = a + e1 + q + b + e2 + q + c + e3 + q;
    let u9 = u8 + d;
    let u10 = u9 + nd;
    assert(u8.len() == rt_p3(m));
    assert(s =~= u8 + d + (nd + e));
    lemma_concat_extract(u8, d, nd + e);
    assert(matches_at(s, rt_p3(m), d));
    assert(s =~= u9 + nd + e);
    lemma_concat_extract(u9, nd, e);
    assert(s =~= u10 + e + Seq::<char>::empty());
    lemma_concat_extract(u10, e, Seq::<char>::empty());
    lemma_subrange_index(s, u10.len() as int, e);
    assert(s[u10.len() as int + 0] == e[0]);
    assert(s[u10.len() as int] == '}');
    assert(!is_dec_digit('}'));
    lemma_sp_u64_complete(s, u9.len() as int, m.details.duration_seconds);
    assert(matches_at(s, rt_p4(m), e));
}

/// Decoding inverts encoding: the deterministic parser recovers exactly
/// the response that was printed, for every response. Nothing — in
/// particular not the identifier — is lost in the frame.
pub proof fn lemma_response_round_trip(m: ResponseView)
    ensures
        sp_response(json_of_response(m)) == Some(m),
{
    let s = json_of_response(m);
    lemma_rt_id(m);
    lemma_rt_title(m);
    lemma_rt_author(m);
    lemma_rt_duration(m);
    assert(sp_response(s) == Some(ResponseView {
        id: m.id,
        details: MetadataView {
            title: m.details.title,
            author: m.details.author,
            duration_seconds: m.details.duration_seconds,
        },
    }));
}


/// No two different responses print to the same frame: together with the
/// round trip this makes the frame a faithful image of the response.
pub proof fn lemma_response_injective(r1: ResponseView, r2: ResponseView)
    requires
        json_of_response(r1) == json_of_response(r2),
    ensures
        r1 == r2,
{
    lemma_response_round_trip(r1);
    lemma_response_round_trip(r2);
}

proof fn lemma_escape_snoc(s: Seq<char>, c: char)
    ensures
        escape(s.push(c)) == escape(s) + esc(c),
    decreases s.len(),
{
    if s.len() == 0 {
        assert(s.push(c) =~= seq![c]);
        assert(seq![c].subrange(1, 1) =~= Seq::<char>::empty());
        assert(escape(Seq::<char>::empty()) == Seq::<char>::empty());
        assert(seq![c][0] == c);
        assert(escape(seq![c]) == esc(c) + escape(seq![c].subrange(1, 1)));
        assert(esc(c) + Seq::<char>::empty() =~= esc(c));
        assert(escape(s) + esc(c) =~= esc(c));
    } else {
        let tail = s.subrange(1, s.len() as int);
        assert(s.push(c).subrange(1, s.len() as int + 1) =~= tail.push(c));
        lemma_escape_snoc(tail, c);
        assert(escape(s.push(c)) == esc(s[0]) + (escape(tail) + esc(c)));
        assert(esc(s[0]) + (escape(tail) + esc(c)) =~= (esc(s[0]) + escape(tail)) + esc(c));
    }
}

fn push_lit(out: &mut Vec<char>, pat: &str)
    ensures
        final(out)@ == old(out)@ + pat@,
{
    let n = pat.unicode_len();
    let mut j: usize = 0;
    while j < n
        invariant
            j <= n,
            n == pat@.len(),
            out@ == old(out)@ + pat@.subrange(0, j as int),
        decreases n - j,
    {
        let c = pat.get_char(j);
        out.push(c);
        proof {
            assert(old(out)@ + pat@.subrange(0, j + 1) =~= out@);
        }
        j += 1;
    }
    proof {
        assert(pat@.subrange(0, pat@.len() as int) =~= pat@);
    }
}

fn hex_char_x(d: u32) -> (r: char)
    requires
        d < 16,
    ensures
        r == hex_digit(d as int),
{
    match d {
        0 => '0',
        1 => '1',
        2 => '2',
        3 => '3',
        4 => '4',
        5 => '5',
        6 => '6',
        7 => '7',
        8 => '8',
        9 => '9',
        10 => 'a',
        11 => 'b',
        12 => 'c',
        13 => 'd',
        14 => 'e',
        _ => 'f',
    }
}

fn hex_val_x(c: char) -> (r: i8)
    ensures
        r as int == hex_val(c),
{
    if c == '0' { 0 }
    else if c == '1' { 1 }
    else if c == '2' { 2 }
    else if c == '3' { 3 }
    else if c == '4' { 4 }
    else if c == '5' { 5 }
    else if c == '6' { 6 }
    else if c == '7' { 7 }
    else if c == '8' { 8 }
    else if c == '9' { 9 }
    else if c == 'a' { 10 }
    else if c == 'b' { 11 }
    else if c == 'c' { 12 }
    else if c == 'd' { 13 }
    else if c == 'e' { 14 }
    else if c == 'f' { 15 }
    else { -1 }
}

fn ctl_char_x(v: u32) -> (r: Option<char>)
    ensures
        r == ctl_char(v as int),
{
    match v {
        0 => Some('\u{0}'),
        1 => Some('\u{1}'),
        2 => Some('\u{2}'),
        3 => Some('\u{3}'),
        4 => Some('\u{4}'),
        5 => Some('\u{5}'),
        6 => Some('\u{6}'),
        7 => Some('\u{7}'),
        8 => Some('\u{8}'),
        11 => Some('\u{b}'),
        12 => Some('\u{c}'),
        14 => Some('\u{e}'),
        15 => Some('\u{f}'),
        16 => Some('\u{10}'),
        17 => Some('\u{11}'),
        18 => Some('\u{12}'),
        19 => Some('\u{13}'),
        20 => Some('\u{14}'),
        21 => Some('\u{15}'),
        22 => Some('\u{16}'),
        23 => Some('\u{17}'),
        24 => Some('\u{18}'),
        25 => Some('\u{19}'),
        26 => Some('\u{1a}'),
        27 => Some('\u{1b}'),
        28 => Some('\u{1c}'),
        29 => Some('\u{1d}'),
        30 => Some('\u{1e}'),
        31 => Some('\u{1f}'),
        _ => None,
    }
}

fn push_escaped(out: &mut Vec<char>, s: &str)
    ensures
        final(out)@ == old(out)@ + escape(s@),
{
    let chars = str_chars(s);
    let mut j: usize = 0;
    while j < chars.len()
        invariant
            j <= chars.len(),
            chars@ == s@,
            out@ == old(out)@ + escape(s@.subrange(0, j as int)),
        decreases chars.len() - j,
    {
        let c = chars[j];
        if c == '"' {
            out.push('\\');
            out.push('"');
        } else if c == '\\' {
            out.push('\\');
            out.push('\\');
        } else if c == '\n' {
            out.push('\\');
            out.push('n');
        } else if c == '\r' {
            out.push('\\');
            out.push('r');
        } else if c == '\t' {
            out.push('\\');
            out.push('t');
        } else if (c as u32) < 32 {
            out.push('\\');
            out.push('u');
            out.push('0');
            out.push('0');
            let hi = hex_char_x(c as u32 / 16);
            out.push(hi);
            let lo = hex_char_x(c as u32 % 16);
            out.push(lo);
        } else {
            out.push(c);
        }
        proof {
            lemma_escape_snoc(s@.subrange(0, j as int), c);
            assert(s@.subrange(0, j + 1) =~= s@.subrange(0, j as int).push(c));
            assert(out@ =~= old(out)@ + escape(s@.subrange(0, j + 1)));
        }
        j += 1;
    }
    proof {
        assert(s@.subrange(0, s@.len() as int) =~= s@);
    }
}

fn digit_char(d: u64) -> (r: char)
    requires
        d < 10,
    ensures
        r == dec_digit(d as int),
{
    match d {
        0 => '0',
        1 => '1',
        2 => '2',
        3 => '3',
        4 => '4',
        5 => '5',
        6 => '6',
        7 => '7',
        8 => '8',
        _ => '9',
    }
}

fn push_dec(out: &mut Vec<char>, n: u64)
    ensures
        final(out)@ == old(out)@ + dec_of(n as nat),
    decreases n,
{
    if n >= 10 {
        push_dec(out, n / 10);
        let c = digit_char(n % 10);
        out.push(c);
        proof {
            assert(out@ =~= old(out)@ + dec_of(n as nat));
        }
    } else {
        let c = digit_char(n);
        out.push(c);
        proof {
            assert(out@ =~= old(out)@ + dec_of(n as nat));
        }
    }
}

/// Prints a response as the reply frame. The result is exactly
/// `json_of_response` of the argument's view.
pub fn encode_video_response(resp: &VideoResponse) -> (r: String)
    ensures
        r@ == json_of_response(resp@),
{
    let mut out: Vec<char> = Vec::new();
    push_lit(&mut out, "{\"id\":\"");
    push_escaped(&mut out, resp.id.as_str());
    push_lit(&mut out, "\"");
    push_lit(&mut out, ",\"details\":{\"title\":\"");
    push_escaped(&mut out, resp.details.title.as_str());
    push_lit(&mut out, "\"");
    push_lit(&mut out, ",\"author\":\"");
    push_escaped(&mut out, resp.details.author.as_str());
    push_lit(&mut out, "\"");
    push_lit(&mut out, ",\"duration_seconds\":");
    push_dec(&mut out, resp.details.duration_seconds);
    push_lit(&mut out, "}}");
    proof {
        assert(out@ =~= json_of_response(resp@));
    }
    chars_string(&out)
}

fn digit_x(c: char) -> (r: bool)
    ensures
        r == is_dec_digit(c),
{
    let u = c as u32;
    '0' as u32 <= u && u <= '9' as u32
}

fn dec_val_x(c: char) -> (r: u64)
    requires
        is_dec_digit(c),
    ensures
        r as int == dec_val(c),
        r < 10,
{
    (c as u32 - '0' as u32) as u64
}

fn parse_string(v: &Vec<char>, i: usize) -> (r: Option<(Vec<char>, usize)>)
    requires
        i <= v.len(),
    ensures
        r matches Some(x) ==> sp_string(v@, i as int) == Some((x.0@, x.1 as int))
            && i < x.1 <= v.len(),
        r is None ==> sp_string(v@, i as int) is None,
{
    let mut acc: Vec<char> = Vec::new();
    let mut p = i;
    while p < v.len()
        invariant
            i <= p <= v.len(),
            sp_string(v@, i as int) == (match sp_string(v@, p as int) {
                Some((t, j)) => Some((acc@ + t, j)),
                None => None::<(Seq<char>, int)>,
            }),
        decreases v.len() - p,
    {
        let c = v[p];
        if c == '"' {
            proof {
                assert(acc@ + Seq::<char>::empty() =~= acc@);
            }
            return Some((acc, p + 1));
        }
        if c == '\\' {
            if p + 1 >= v.len() {
                return None;
            }
            let c2 = v[p + 1];
            if c2 == 'u' {
                if v.len() - p <= 5 {
                    return None;
                }
                if v[p + 2] != '0' || v[p + 3] != '0' {
                    return None;
                }
                let h1 = hex_val_x(v[p + 4]);
                let h2 = hex_val_x(v[p + 5]);
                if h1 < 0 || h2 < 0 {
                    return None;
                }
                let code: u32 = (h1 as u32) * 16 + (h2 as u32);
                let ch = match ctl_char_x(code) {
                    Some(ch) => ch,
                    None => { return None; },
                };
                proof {
                    let ghost acc0 = acc@;
                    match sp_string(v@, p + 6) {
                        Some((t, j)) => {
                            assert(acc0 + (seq![ch] + t) =~= acc0.push(ch) + t);
                        },
                        None => {},
                    }
                }
                acc.push(ch);
                p = p + 6;
            } else {
                let dec: char;
                if c2 == '"' {
                    dec = '"';
                } else if c2 == '\\' {
                    dec = '\\';
                } else if c2 == 'n' {
                    dec = '\n';
                } else if c2 == 'r' {
                    dec = '\r';
                } else if c2 == 't' {
                    dec = '\t';
                } else {
                    return None;
                }
                proof {
                    let ghost acc0 = acc@;
                    match sp_string(v@, p + 2) {
                        Some((t, j)) => {
                            assert(acc0 + (seq![dec] + t) =~= acc0.push(dec) + t);
                        },
                        None => {},
                    }
                }
                acc.push(dec);
                p = p + 2;
            }
        } else {
            proof {
                let ghost acc0 = acc@;
                match sp_string(v@, p + 1) {
                    Some((t, j)) => {
                        assert(acc0 + (seq![c] + t) =~= acc0.push(c) + t);
                    },
                    None => {},
                }
            }
            acc.push(c);
            p = p + 1;
        }
    }
    None
}

fn parse_u64(v: &Vec<char>, i: usize) -> (r: Option<(u64, usize)>)
    requires
        i <= v.len(),
    ensures
        r matches Some(x) ==> sp_u64(v@, i as int) == Some((x.0 as int, x.1 as int))
            && i < x.1 <= v.len(),
        r is None ==> sp_u64(v@, i as int) is None,
{
    if i >= v.len() {
        return None;
    }
    let c0 = v[i];
    if !digit_x(c0) {
        return None;
    }
    if c0 == '0' {
        if i + 1 < v.len() && digit_x(v[i + 1]) {
            return None;
        }
        return Some((0, i + 1));
    }
    let mut acc: u64 = 0;
    let mut p = i;
    while p < v.len()
        invariant
            i < v.len(),
            i <= p <= v.len(),
            is_dec_digit(v@[i as int]),
            v@[i as int] != '0',
            sp_digits(v@, i as int, 0) == sp_digits(v@, p as int, acc as int),
        decreases v.len() - p,
    {
        let c = v[p];
        if !digit_x(c) {
            return Some((acc, p));
        }
        let d = dec_val_x(c);
        if acc > (u64::MAX - d) / 10 {
            proof {
                assert((acc as int) * 10 + (d as int) > u64::MAX as int) by (nonlinear_arith)
                    requires
                        acc as int > (u64::MAX as int - d as int) / 10,
                        0 <= d < 10,
                        acc as int >= 0,
                {};
            }
            return None;
        }
        proof {
            assert((acc as int) * 10 + (d as int) <= u64::MAX as int) by (nonlinear_arith)
                requires
                    acc as int <= (u64::MAX as int - d as int) / 10,
                    0 <= d < 10,
                    acc as int >= 0,
            {};
        }
        acc = acc * 10 + d;
        p = p + 1;
    }
    Some((acc, p))
}

/// Parses a reply frame back into a response. The result is exactly what
/// the deterministic parser `sp_response` yields, so together with
/// `lemma_response_round_trip` every encoded response decodes to itself.
pub fn decode_video_response(s: &str) -> (r: Option<VideoResponse>)
    ensures
        r matches Some(d) ==> sp_response(s@) == Some(d@),
        r is None ==> sp_response(s@) is None,
{
    let v = str_chars(s);
    if !match_lit(&v, 0, "{\"id\":\"") {
        return None;
    }
    let p0 = "{\"id\":\"".unicode_len();
    let (id_chars, p1) = match parse_string(&v, p0) {
        Some(x) => x,
        None => { return None; },
    };
    if !match_lit(&v, p1, ",\"details\":{\"title\":\"") {
        return None;
    }
    let q1 = p1 + ",\"details\":{\"title\":\"".unicode_len();
    let (title_chars, p2) = match parse_string(&v, q1) {
        Some(x) => x,
        None => { return None; },
    };
    if !match_lit(&v, p2, ",\"author\":\"") {
        return None;
    }
    let q2 = p2 + ",\"author\":\"".unicode_len();
    let (author_chars, p3) = match parse_string(&v, q2) {
        Some(x) => x,
        None => { return None; },
    };
    if !match_lit(&v, p3, ",\"duration_seconds\":") {
        return None;
    }
    let q3 = p3 + ",\"duration_seconds\":".unicode_len();
    let (n, p4) = match parse_u64(&v, q3) {
        Some(x) => x,
        None => { return None; },
    };
    if !match_lit(&v, p4, "}}") {
        return None;
    }
    if p4 + "}}".unicode_len() != v.len() {
        return None;
    }
    Some(VideoResponse {
        id: chars_string(&id_chars),
        details: VideoMetadata {
            title: chars_string(&title_chars),
            author: chars_string(&author_chars),
            duration_seconds: n,
        },
    })
}

} // verus!
