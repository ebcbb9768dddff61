//! Byte spans of a text: what a pattern match hands over, and how a span is
//! cut out of the text without splitting a character.

use vstd::prelude::*;
use vstd::string::*;
use vstd::utf8::{
    decode_utf8, encode_utf8, encode_utf8_decode_utf8, encode_utf8_valid_utf8, is_char_boundary,
    is_char_boundary_iff_not_is_continuation_byte, is_char_boundary_start_end_of_seq,
    valid_utf8, valid_utf8_split,
};

verus! {

/// `a..b` is a range of bytes of the UTF-8 encoding `bytes` that begins and
/// ends on a character boundary.
pub open spec fn valid_span(bytes: Seq<u8>, a: int, b: int) -> bool {
    &&& 0 <= a <= b <= bytes.len()
    &&& is_char_boundary(bytes, a)
    &&& is_char_boundary(bytes, b)
}

/// The characters that the bytes `a..b` of the encoding of `text` encode.
pub open spec fn byte_slice(text: Seq<char>, a: int, b: int) -> Seq<char> {
    decode_utf8(encode_utf8(text).subrange(a, b))
}

/// The nearest character boundary at or before `idx`; the length of the
/// text where `idx` is at or beyond it.
pub open spec fn snap_back(bytes: Seq<u8>, idx: int) -> int
    decreases idx,
{
    if idx >= bytes.len() {
        bytes.len() as int
    } else if idx <= 0 {
        0
    } else if is_char_boundary(bytes, idx) {
        idx
    } else {
        snap_back(bytes, idx - 1)
    }
}

/// `snap_back` returns a character boundary, the last one that is not
/// beyond `idx`.
pub proof fn lemma_snap_back(bytes: Seq<u8>, idx: int)
    requires
        valid_utf8(bytes),
        0 <= idx,
    ensures
        0 <= snap_back(bytes, idx) <= bytes.len(),
        snap_back(bytes, idx) <= idx,
        is_char_boundary(bytes, snap_back(bytes, idx)),
        forall|j: int|
            snap_back(bytes, idx) < j <= idx && j <= bytes.len() ==> !is_char_boundary(bytes, j),
    decreases idx,
{
    is_char_boundary_start_end_of_seq(bytes);
    if idx >= bytes.len() {
    } else if idx <= 0 {
    } else if is_char_boundary(bytes, idx) {
    } else {
        lemma_snap_back(bytes, idx - 1);
    }
}

/// Snaps a byte index back to the nearest character boundary.
pub fn snap_to_char_boundary(s: &str, idx: usize) -> (r: usize)
    ensures
        r == snap_back(s.spec_bytes(), idx as int),
        r <= s.spec_bytes().len(),
        r <= idx,
        is_char_boundary(s.spec_bytes(), r as int),
{
    proof {
        encode_utf8_valid_utf8(s@);
        lemma_snap_back(s.spec_bytes(), idx as int);
    }
    let len = s.as_bytes().len();
    if idx >= len {
        return len;
    }
    let mut i: usize = idx;
    while !s.is_char_boundary(i) && i > 0
        invariant
            i <= idx < s.spec_bytes().len(),
            snap_back(s.spec_bytes(), idx as int) == snap_back(s.spec_bytes(), i as int),
        decreases i,
    {
        i -= 1;
    }
    i
}

/// The nearest character boundary at or after `idx`; the length of the text
/// where `idx` is at or beyond it.
pub open spec fn snap_forward(bytes: Seq<u8>, idx: int) -> int
    decreases bytes.len() - idx,
{
    if idx >= bytes.len() {
        bytes.len() as int
    } else if idx <= 0 {
        0
    } else if is_char_boundary(bytes, idx) {
        idx
    } else {
        snap_forward(bytes, idx + 1)
    }
}

/// `snap_forward` returns a character boundary, the first one that is not
/// before `idx`.
pub proof fn lemma_snap_forward(bytes: Seq<u8>, idx: int)
    requires
        valid_utf8(bytes),
        0 <= idx <= bytes.len(),
    ensures
        idx <= snap_forward(bytes, idx) <= bytes.len(),
        is_char_boundary(bytes, snap_forward(bytes, idx)),
        forall|j: int| idx <= j < snap_forward(bytes, idx) ==> !is_char_boundary(bytes, j),
    decreases bytes.len() - idx,
{
    is_char_boundary_start_end_of_seq(bytes);
    if idx >= bytes.len() {
    } else if idx <= 0 {
    } else if is_char_boundary(bytes, idx) {
    } else {
        lemma_snap_forward(bytes, idx + 1);
    }
}

/// Snaps a byte index forward to the nearest character boundary.
pub fn snap_to_next_char_boundary(s: &str, idx: usize) -> (r: usize)
    ensures
        r == snap_forward(s.spec_bytes(), idx as int),
        r <= s.spec_bytes().len(),
        idx <= s.spec_bytes().len() ==> idx <= r,
        is_char_boundary(s.spec_bytes(), r as int),
{
    proof {
        encode_utf8_valid_utf8(s@);
        is_char_boundary_start_end_of_seq(s.spec_bytes());
        if idx <= s.spec_bytes().len() {
            lemma_snap_forward(s.spec_bytes(), idx as int);
        }
    }
    let len = s.as_bytes().len();
    if idx >= len {
        return len;
    }
    let mut i: usize = idx;
    while !s.is_char_boundary(i)
        invariant
            idx <= i <= len,
            len == s.spec_bytes().len(),
            valid_utf8(s.spec_bytes()),
            is_char_boundary(s.spec_bytes(), len as int),
            snap_forward(s.spec_bytes(), idx as int) == snap_forward(s.spec_bytes(), i as int),
        decreases len - i,
    {
        proof {
            lemma_snap_forward(s.spec_bytes(), i as int);
        }
        i += 1;
    }
    i
}

/// A character boundary of a text is one of each prefix that reaches it.
proof fn lemma_boundary_in_prefix(bytes: Seq<u8>, a: int, b: int)
    requires
        valid_utf8(bytes),
        valid_span(bytes, a, b),
    ensures
        valid_utf8(bytes.subrange(0, b)),
        is_char_boundary(bytes.subrange(0, b), a),
{
    valid_utf8_split(bytes, b);
    let prefix = bytes.subrange(0, b);
    is_char_boundary_start_end_of_seq(prefix);
    if a < b {
        is_char_boundary_iff_not_is_continuation_byte(bytes, a);
        is_char_boundary_iff_not_is_continuation_byte(prefix, a);
        assert(prefix[a] == bytes[a]);
    }
}

/// The part of `text` that the bytes `a..b` hold.
pub fn slice(text: &str, a: usize, b: usize) -> (r: &str)
    requires
        valid_span(text.spec_bytes(), a as int, b as int),
    ensures
        r@ == byte_slice(text@, a as int, b as int),
        r.spec_bytes() == text.spec_bytes().subrange(a as int, b as int),
{
    proof {
        encode_utf8_valid_utf8(text@);
        lemma_boundary_in_prefix(text.spec_bytes(), a as int, b as int);
    }
    let (head, _) = text.split_at(b);
    let (_, r) = head.split_at(a);
    proof {
        assert(r.spec_bytes() =~= text.spec_bytes().subrange(a as int, b as int));
        encode_utf8_decode_utf8(r@);
    }
    r
}

/// The spans of the successive matches of `pattern` in `text`, as
/// `regex::Regex::find_iter` yields them: byte offsets of start and end. A
/// pattern that does not compile has no match.
pub uninterp spec fn regex_spans(pattern: Seq<char>, text: Seq<char>) -> Seq<(usize, usize)>;

/// For each successive match of `pattern` in `text`, as
/// `regex::Regex::captures_iter` yields them, the span of capture group
/// `group`, where that group took part in the match. A pattern that does not
/// compile has no match.
pub uninterp spec fn regex_group_spans(pattern: Seq<char>, group: usize, text: Seq<char>) -> Seq<
    Option<(usize, usize)>,
>;

/// Every span lies in `text` on character boundaries.
pub open spec fn spans_in(text: Seq<char>, spans: Seq<(usize, usize)>) -> bool {
    forall|i: int|
        0 <= i < spans.len() ==> valid_span(
            encode_utf8(text),
            (#[trigger] spans[i]).0 as int,
            spans[i].1 as int,
        )
}

/// Each span begins where the one before it ended, or later.
pub open spec fn spans_ordered(spans: Seq<(usize, usize)>) -> bool {
    forall|i: int, j: int|
        0 <= i < j < spans.len() ==> (#[trigger] spans[i]).1 <= (#[trigger] spans[j]).0
}

/// Every span that is there lies in `text` on character boundaries.
pub open spec fn group_spans_in(text: Seq<char>, spans: Seq<Option<(usize, usize)>>) -> bool {
    forall|i: int|
        0 <= i < spans.len() ==> match #[trigger] spans[i] {
            Some(sp) => valid_span(encode_utf8(text), sp.0 as int, sp.1 as int),
            None => true,
        }
}

/// `regex::Regex::new` and `regex::Regex::find_iter`, with `Match::start`
/// and `Match::end` of each match. The result is a function of pattern and
/// text alone and is only named. Stated of it is what the documentation of
/// `Match` and of `find_iter` promises: `start <= end`, both offsets on
/// character boundaries of the text, and successive matches that do not
/// overlap.
#[verifier::external_body]
pub(crate) fn find_spans(pattern: &str, text: &str) -> (r: Vec<(usize, usize)>)
    ensures
        r@ == regex_spans(pattern@, text@),
        spans_in(text@, r@),
        spans_ordered(r@),
{
    match regex::Regex::new(pattern) {
        Ok(re) => re.find_iter(text).map(|m| (m.start(), m.end())).collect(),
        Err(_) => Vec::new(),
    }
}

/// `regex::Regex::new` and `regex::Regex::captures_iter`, with
/// `Captures::get` for the group and `Match::start` and `Match::end` of what
/// it returns. The result is a function of pattern, group and text alone and
/// is only named. Stated of it is what the documentation of `Match`
/// promises: `start <= end`, both offsets on character boundaries of the
/// text.
#[verifier::external_body]
pub(crate) fn find_group_spans(pattern: &str, group: usize, text: &str) -> (r: Vec<
    Option<(usize, usize)>,
>)
    ensures
        r@ == regex_group_spans(pattern@, group, text@),
        group_spans_in(text@, r@),
{
    match regex::Regex::new(pattern) {
        Ok(re) => re.captures_iter(text).map(
            |c| c.get(group).map(|m| (m.start(), m.end())),
        ).collect(),
        Err(_) => Vec::new(),
    }
}

} // verus!
