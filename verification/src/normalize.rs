//! The identifier normalizer: purely syntactic validation of a raw video
//! reference. A reference is accepted when it is a bare eleven-character
//! video identifier or one of the platform's URL shapes (watch, shorts,
//! embed, share), tried in that order; the canonical identifier is
//! extracted from the first shape that fits.

use vstd::prelude::*;
use crate::model::{ErrorKind, RetrievalError, VideoReference};
use crate::text::{chars_string, str_chars};

verus! {

/// Characters a video identifier may consist of.
pub open spec fn is_id_char(c: char) -> bool {
    ('a' as u32 <= c as u32 && c as u32 <= 'z' as u32)
    || ('A' as u32 <= c as u32 && c as u32 <= 'Z' as u32)
    || ('0' as u32 <= c as u32 && c as u32 <= '9' as u32)
    || c == '-'
    || c == '_'
}

/// Word characters, as the URL shapes use them for the host's last label.
pub open spec fn is_word_char(c: char) -> bool {
    ('a' as u32 <= c as u32 && c as u32 <= 'z' as u32)
    || ('A' as u32 <= c as u32 && c as u32 <= 'Z' as u32)
    || ('0' as u32 <= c as u32 && c as u32 <= '9' as u32)
    || c == '_'
}

/// A canonical video identifier: exactly eleven identifier characters.
pub open spec fn is_video_id(s: Seq<char>) -> bool {
    s.len() == 11 && forall|i: int| 0 <= i < s.len() ==> #[trigger] is_id_char(s[i])
}

/// `pat` occurs in `s` starting at position `i`.
pub open spec fn matches_at(s: Seq<char>, i: int, pat: Seq<char>) -> bool {
    0 <= i && i + pat.len() <= s.len() && s.subrange(i, i + pat.len()) == pat
}

/// Position after the optional `http://` / `https://` prefix.
pub open spec fn scheme_end(s: Seq<char>) -> int {
    if matches_at(s, 0, "https://"@) {
        "https://"@.len() as int
    } else if matches_at(s, 0, "http://"@) {
        "http://"@.len() as int
    } else {
        0
    }
}

/// Position after the optional `www.` prefix, starting from `i`.
pub open spec fn www_end(s: Seq<char>, i: int) -> int {
    if matches_at(s, i, "www."@) {
        i + "www."@.len()
    } else {
        i
    }
}

/// Position after `youtube`, one further character, and a two- or
/// three-letter last label; negative when no such host stands at `i`.
pub open spec fn host_end(s: Seq<char>, i: int) -> int {
    let j = i + "youtube"@.len();
    if matches_at(s, i, "youtube"@) && j + 3 <= s.len() && s[j] != '\n'
        && is_word_char(s[j + 1]) && is_word_char(s[j + 2]) {
        if j + 3 < s.len() && is_word_char(s[j + 3]) {
            j + 4
        } else {
            j + 3
        }
    } else {
        -1
    }
}

/// No line break occurs in `s` at or after position `i`.
pub open spec fn no_newline_from(s: Seq<char>, i: int) -> bool {
    forall|k: int| i <= k < s.len() ==> s[k] != '\n'
}

/// The remainder at `i` is empty, or starts with `lead` and carries no
/// line break after it.
pub open spec fn tail_ok(s: Seq<char>, i: int, lead: char) -> bool {
    i == s.len() || (i < s.len() && s[i] == lead && no_newline_from(s, i + 1))
}

/// A valid identifier stands at `k` (with room for all eleven characters).
pub open spec fn id_at(s: Seq<char>, k: int) -> bool {
    0 <= k && k + 11 <= s.len() && is_video_id(s.subrange(k, k + 11))
}

/// Identifier extracted by the watch-URL shape, if `s` has it.
pub open spec fn watch_id(s: Seq<char>) -> Option<Seq<char>> {
    let h = host_end(s, www_end(s, scheme_end(s)));
    let k = h + "/watch?v="@.len();
    if h >= 0 && matches_at(s, h, "/watch?v="@) && id_at(s, k) && tail_ok(s, k + 11, '&') {
        Some(s.subrange(k, k + 11))
    } else {
        None
    }
}

/// Identifier extracted by the shorts-URL shape, if `s` has it.
pub open spec fn shorts_id(s: Seq<char>) -> Option<Seq<char>> {
    let h = host_end(s, www_end(s, scheme_end(s)));
    let k = h + "/shorts/"@.len();
    if h >= 0 && matches_at(s, h, "/shorts/"@) && id_at(s, k) && tail_ok(s, k + 11, '?') {
        Some(s.subrange(k, k + 11))
    } else {
        None
    }
}

/// Identifier extracted by the embed-URL shape, if `s` has it. A stray
/// backslash may stand between the identifier and the query tail.
pub open spec fn embed_id(s: Seq<char>) -> Option<Seq<char>> {
    let h = host_end(s, www_end(s, scheme_end(s)));
    let k = h + "/embed/"@.len();
    let e = if k + 11 < s.len() && s[k + 11] == '\\' { k + 12 } else { k + 11 };
    if h >= 0 && matches_at(s, h, "/embed/"@) && id_at(s, k) && tail_ok(s, e, '?') {
        Some(s.subrange(k, k + 11))
    } else {
        None
    }
}

/// Identifier extracted by the share-URL shape, if `s` has it: an optional
/// scheme, `youtu.be/`, and the identifier ending the string.
pub open spec fn share_id(s: Seq<char>) -> Option<Seq<char>> {
    let i = scheme_end(s);
    let k = i + "youtu.be/"@.len();
    if matches_at(s, i, "youtu.be/"@) && k + 11 == s.len() && id_at(s, k) {
        Some(s.subrange(k, k + 11))
    } else {
        None
    }
}

/// What normalization yields on `s`: the identifier of the first URL shape
/// that fits, the string itself when it is a bare identifier, nothing
/// otherwise.
pub open spec fn normalize_spec(s: Seq<char>) -> Option<Seq<char>> {
    if watch_id(s) is Some {
        watch_id(s)
    } else if shorts_id(s) is Some {
        shorts_id(s)
    } else if embed_id(s) is Some {
        embed_id(s)
    } else if share_id(s) is Some {
        share_id(s)
    } else if is_video_id(s) {
        Some(s)
    } else {
        None
    }
}

fn id_char_x(c: char) -> (r: bool)
    ensures
        r == is_id_char(c),
{
    let u = c as u32;
    ('a' as u32 <= u && u <= 'z' as u32)
    || ('A' as u32 <= u && u <= 'Z' as u32)
    || ('0' as u32 <= u && u <= '9' as u32)
    || c == '-'
    || c == '_'
}

fn word_char_x(c: char) -> (r: bool)
    ensures
        r == is_word_char(c),
{
    let u = c as u32;
    ('a' as u32 <= u && u <= 'z' as u32)
    || ('A' as u32 <= u && u <= 'Z' as u32)
    || ('0' as u32 <= u && u <= '9' as u32)
    || c == '_'
}

pub(crate) fn match_lit(v: &Vec<char>, i: usize, pat: &str) -> (r: bool)
    ensures
        r == matches_at(v@, i as int, pat@),
{
    let n = pat.unicode_len();
    if i > v.len() || n > v.len() - i {
        return false;
    }
    let mut j: usize = 0;
    while j < n
        invariant
            i + n <= v.len(),
            n == pat@.len(),
            j <= n,
            forall|k: int| 0 <= k < j ==> v@[i + k] == pat@[k],
        decreases n - j,
    {
        let c = pat.get_char(j);
        if v[i + j] != c {
            proof {
                let sub = v@.subrange(i as int, i + pat@.len());
                assert(sub[j as int] == v@[i + j]);
            }
            return false;
        }
        j += 1;
    }
    proof {
        assert(v@.subrange(i as int, i + pat@.len()) =~= pat@);
    }
    true
}

fn scheme_end_x(v: &Vec<char>) -> (r: usize)
    ensures
        r as int == scheme_end(v@),
        r <= v.len(),
{
    if match_lit(v, 0, "https://") {
        "https://".unicode_len()
    } else if match_lit(v, 0, "http://") {
        "http://".unicode_len()
    } else {
        0
    }
}

fn www_end_x(v: &Vec<char>, i: usize) -> (r: usize)
    requires
        i <= v.len(),
    ensures
        r as int == www_end(v@, i as int),
        r <= v.len(),
{
    if match_lit(v, i, "www.") {
        i + "www.".unicode_len()
    } else {
        i
    }
}

fn host_end_x(v: &Vec<char>, i: usize) -> (r: Option<usize>)
    requires
        i <= v.len(),
    ensures
        r is Some <==> host_end(v@, i as int) >= 0,
        r matches Some(h) ==> h as int == host_end(v@, i as int) && h <= v.len(),
{
    if !match_lit(v, i, "youtube") {
        return None;
    }
    let j = i + "youtube".unicode_len();
    if v.len() - j < 3 {
        return None;
    }
    if v[j] == '\n' {
        return None;
    }
    if !word_char_x(v[j + 1]) || !word_char_x(v[j + 2]) {
        return None;
    }
    if j + 3 < v.len() && word_char_x(v[j + 3]) {
        Some(j + 4)
    } else {
        Some(j + 3)
    }
}

fn no_newline_x(v: &Vec<char>, i: usize) -> (r: bool)
    requires
        i <= v.len(),
    ensures
        r == no_newline_from(v@, i as int),
{
    let mut j = i;
    while j < v.len()
        invariant
            i <= j <= v.len(),
            forall|k: int| i <= k < j ==> v@[k] != '\n',
        decreases v.len() - j,
    {
        if v[j] == '\n' {
            return false;
        }
        j += 1;
    }
    true
}

fn tail_ok_x(v: &Vec<char>, i: usize, lead: char) -> (r: bool)
    requires
        i <= v.len(),
    ensures
        r == tail_ok(v@, i as int, lead),
{
    if i == v.len() {
        true
    } else if v[i] == lead {
        no_newline_x(v, i + 1)
    } else {
        false
    }
}

fn id_at_x(v: &Vec<char>, k: usize) -> (r: bool)
    requires
        k <= v.len(),
    ensures
        r == id_at(v@, k as int),
{
    if v.len() - k < 11 {
        return false;
    }
    let mut j: usize = 0;
    while j < 11
        invariant
            k + 11 <= v.len(),
            j <= 11,
            forall|t: int| 0 <= t < j ==> #[trigger] is_id_char(v@[k + t]),
        decreases 11 - j,
    {
        if !id_char_x(v[k + j]) {
            proof {
                let sub = v@.subrange(k as int, k as int + 11);
                assert(sub[j as int] == v@[k + j]);
                assert(is_id_char(sub[j as int]) == is_id_char(v@[k + j]));
            }
            return false;
        }
        j += 1;
    }
    proof {
        let sub = v@.subrange(k as int, k as int + 11);
        assert forall|t: int| 0 <= t < sub.len() implies #[trigger] is_id_char(sub[t]) by {
            assert(sub[t] == v@[k + t]);
            assert(is_id_char(v@[k + t]));
        }
    }
    true
}

fn watch_at(v: &Vec<char>) -> (r: Option<usize>)
    ensures
        r is Some <==> watch_id(v@) is Some,
        r matches Some(k) ==> k + 11 <= v.len()
            && watch_id(v@) == Some(v@.subrange(k as int, k as int + 11)),
{
    let i0 = scheme_end_x(v);
    let i1 = www_end_x(v, i0);
    let h = match host_end_x(v, i1) {
        Some(h) => h,
        None => { return None; },
    };
    if !match_lit(v, h, "/watch?v=") {
        return None;
    }
    let k = h + "/watch?v=".unicode_len();
    if !id_at_x(v, k) {
        return None;
    }
    if !tail_ok_x(v, k + 11, '&') {
        return None;
    }
    Some(k)
}

fn shorts_at(v: &Vec<char>) -> (r: Option<usize>)
    ensures
        r is Some <==> shorts_id(v@) is Some,
        r matches Some(k) ==> k + 11 <= v.len()
            && shorts_id(v@) == Some(v@.subrange(k as int, k as int + 11)),
{
    let i0 = scheme_end_x(v);
    let i1 = www_end_x(v, i0);
    let h = match host_end_x(v, i1) {
        Some(h) => h,
        None => { return None; },
    };
    if !match_lit(v, h, "/shorts/") {
        return None;
    }
    let k = h + "/shorts/".unicode_len();
    if !id_at_x(v, k) {
        return None;
    }
    if !tail_ok_x(v, k + 11, '?') {
        return None;
    }
    Some(k)
}

fn embed_at(v: &Vec<char>) -> (r: Option<usize>)
    ensures
        r is Some <==> embed_id(v@) is Some,
        r matches Some(k) ==> k + 11 <= v.len()
            && embed_id(v@) == Some(v@.subrange(k as int, k as int + 11)),
{
    let i0 = scheme_end_x(v);
    let i1 = www_end_x(v, i0);
    let h = match host_end_x(v, i1) {
        Some(h) => h,
        None => { return None; },
    };
    if !match_lit(v, h, "/embed/") {
        return None;
    }
    let k = h + "/embed/".unicode_len();
    if !id_at_x(v, k) {
        return None;
    }
    let e = if k + 11 < v.len() && v[k + 11] == '\\' {
        k + 12
    } else {
        k + 11
    };
    if !tail_ok_x(v, e, '?') {
        return None;
    }
    Some(k)
}

fn share_at(v: &Vec<char>) -> (r: Option<usize>)
    ensures
        r is Some <==> share_id(v@) is Some,
        r matches Some(k) ==> k + 11 <= v.len()
            && share_id(v@) == Some(v@.subrange(k as int, k as int + 11)),
{
    let i0 = scheme_end_x(v);
    if !match_lit(v, i0, "youtu.be/") {
        return None;
    }
    let k = i0 + "youtu.be/".unicode_len();
    if v.len() - k != 11 {
        return None;
    }
    if !id_at_x(v, k) {
        return None;
    }
    Some(k)
}

fn bare_at(v: &Vec<char>) -> (r: bool)
    ensures
        r == is_video_id(v@),
{
    if v.len() != 11 {
        return false;
    }
    let r = id_at_x(v, 0);
    proof {
        assert(v@.subrange(0, 11) =~= v@);
    }
    r
}

/// Parses a raw client-supplied string into a canonical video reference.
/// Purely syntactic: no side effect accompanies acceptance or rejection,
/// and equal inputs always produce equal results.
pub fn normalize(raw: &str) -> (r: Result<VideoReference, RetrievalError>)
    ensures
        r matches Ok(v) ==> normalize_spec(raw@) == Some(v@) && v.wf(),
        r is Err <==> normalize_spec(raw@) is None,
        r matches Err(e) ==> e.kind == ErrorKind::InvalidReference && e.detail is None,
{
    let chars = str_chars(raw);
    let pos: Option<usize> = if let Some(k) = watch_at(&chars) {
        Some(k)
    } else if let Some(k) = shorts_at(&chars) {
        Some(k)
    } else if let Some(k) = embed_at(&chars) {
        Some(k)
    } else if let Some(k) = share_at(&chars) {
        Some(k)
    } else if bare_at(&chars) {
        proof {
            assert(chars@.subrange(0, 11) =~= chars@);
        }
        Some(0)
    } else {
        None
    };
    match pos {
        Some(k) => {
            let mut idv: Vec<char> = Vec::new();
            let mut t = k;
            while t < k + 11
                invariant
                    k <= t <= k + 11,
                    k + 11 <= chars.len(),
                    idv@ == chars@.subrange(k as int, t as int),
                decreases k + 11 - t,
            {
                idv.push(chars[t]);
                proof {
                    assert(idv@ =~= chars@.subrange(k as int, t + 1));
                }
                t += 1;
            }
            let id = chars_string(&idv);
            Ok(VideoReference::from_id(id))
        },
        None => Err(RetrievalError::bare(ErrorKind::InvalidReference)),
    }
}


/// A bare valid identifier normalizes to itself: no URL shape can accept
/// it, since each demands a character — a colon, a dot or a slash — that
/// no identifier character is, or more room than eleven characters give.
pub proof fn lemma_bare_id_normalizes_to_self(s: Seq<char>)
    requires
        is_video_id(s),
    ensures
        normalize_spec(s) == Some(s),
{
    reveal_strlit("https://");
    reveal_strlit("http://");
    reveal_strlit("www.");
    reveal_strlit("youtube");
    reveal_strlit("/watch?v=");
    reveal_strlit("/shorts/");
    reveal_strlit("/embed/");
    reveal_strlit("youtu.be/");
    assert(!matches_at(s, 0, "https://"@)) by {
        if matches_at(s, 0, "https://"@) {
            assert(s.subrange(0, 8)[5] == s[5]);
            assert(s[5] == ':');
            assert(is_id_char(s[5]));
        }
    }
    assert(!matches_at(s, 0, "http://"@)) by {
        if matches_at(s, 0, "http://"@) {
            assert(s.subrange(0, 7)[4] == s[4]);
            assert(s[4] == ':');
            assert(is_id_char(s[4]));
        }
    }
    assert(scheme_end(s) == 0);
    assert(!matches_at(s, 0, "www."@)) by {
        if matches_at(s, 0, "www."@) {
            assert(s.subrange(0, 4)[3] == s[3]);
            assert(s[3] == '.');
            assert(is_id_char(s[3]));
        }
    }
    assert(www_end(s, 0) == 0);
    let h = host_end(s, 0);
    assert(h == -1 || h >= 10);
    assert(watch_id(s) is None) by {
        assert("/watch?v="@.len() == 9);
    }
    assert(shorts_id(s) is None) by {
        assert("/shorts/"@.len() == 8);
    }
    assert(embed_id(s) is None) by {
        assert("/embed/"@.len() == 7);
    }
    assert(!matches_at(s, 0, "youtu.be/"@)) by {
        if matches_at(s, 0, "youtu.be/"@) {
            assert(s.subrange(0, 9)[5] == s[5]);
            assert(s[5] == '.');
            assert(is_id_char(s[5]));
        }
    }
    assert(share_id(s) is None);
}

/// Normalization is canonicalizing: whatever shape was accepted, the
/// extracted identifier is itself a valid reference and normalizes to
/// itself, so normalizing twice changes nothing.
pub proof fn lemma_normalize_canonical(s: Seq<char>, id: Seq<char>)
    requires
        normalize_spec(s) == Some(id),
    ensures
        is_video_id(id),
        normalize_spec(id) == Some(id),
{
    assert(is_video_id(id));
    lemma_bare_id_normalizes_to_self(id);
}

} // verus!
