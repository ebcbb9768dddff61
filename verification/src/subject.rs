//! Subject lines and their reply and forward prefixes.

use crate::text::{
    chars_of, find, find_in, has_prefix_ignore_case, lemma_find, lemma_leading_bounds,
    parse_u32, parsed_u32, starts_with_ignore_case, subvec, text_of, trim_start, trimmed_start,
};
use vstd::prelude::*;
use vstd::string::*;

verus! {

/// Email subject with analysis.
#[derive(Debug, Clone)]
pub struct Subject {
    /// Original subject line.
    pub original: String,
    /// Subject without its reply and forward prefixes.
    pub normalized: String,
    /// Number of replies that the prefixes stand for; it stops at `u32::MAX`.
    pub reply_depth: u32,
    /// Is this a forward?
    pub is_forward: bool,
    /// Detected language (ISO 639-1 code).
    pub language: Option<String>,
}

/// What the analysis of a subject line finds.
pub struct SubjectView {
    pub normalized: Seq<char>,
    pub reply_depth: nat,
    pub is_forward: bool,
}

/// What is left of `s` once the reply prefixes at its front are gone, and the
/// number of replies that they stand for. `Re:` stands for one reply, and
/// `Re[N]:` for `N`, where the text `N` between `Re[` and the first `]:`
/// writes an unsigned integer; the white space after a prefix goes with it.
/// A `Re[` that no `]:` follows, or with anything but such a number before
/// the `]:`, is no prefix. Letters are compared without regard to ASCII
/// case.
pub open spec fn strip_replies(s: Seq<char>) -> (Seq<char>, nat)
    decreases s.len(),
    via strip_replies_decreases
{
    if starts_with_ignore_case(s, "re:"@) {
        let (rest, n) = strip_replies(trim_start(s.skip(3)));
        (rest, n + 1)
    } else if starts_with_ignore_case(s, "re["@) {
        match find(s, "]:"@) {
            Some(end) => match parsed_u32(s.subrange(3, end)) {
                Some(count) => {
                    let (rest, n) = strip_replies(trim_start(s.skip(end + 2)));
                    (rest, n + count as nat)
                },
                None => (s, 0),
            },
            None => (s, 0),
        }
    } else {
        (s, 0)
    }
}

#[via_fn]
proof fn strip_replies_decreases(s: Seq<char>) {
    reveal_strlit("re:");
    reveal_strlit("re[");
    reveal_strlit("]:");
    if starts_with_ignore_case(s, "re:"@) {
        lemma_leading_bounds(s.skip(3));
    } else if starts_with_ignore_case(s, "re["@) {
        lemma_find(s, "]:"@);
        match find(s, "]:"@) {
            Some(end) => {
                lemma_leading_bounds(s.skip(end + 2));
            },
            None => {},
        }
    }
}

/// A character that the stripping of a forward prefix takes away.
pub open spec fn is_forward_mark(c: char) -> bool {
    c == 'F' || c == 'f' || c == 'W' || c == 'w' || c == 'D' || c == 'd' || c == ':'
}

/// Number of leading forward marks.
pub open spec fn leading_forward_marks(s: Seq<char>) -> nat
    decreases s.len(),
{
    if s.len() > 0 && is_forward_mark(s[0]) {
        1 + leading_forward_marks(s.drop_first())
    } else {
        0
    }
}

/// `s` begins with `Fwd:` or `Fw:`, ASCII case ignored.
pub open spec fn has_forward_prefix(s: Seq<char>) -> bool {
    starts_with_ignore_case(s, "fwd:"@) || starts_with_ignore_case(s, "fw:"@)
}

/// `s` without its leading forward marks and the white space after them.
pub open spec fn strip_forward(s: Seq<char>) -> Seq<char> {
    trim_start(s.skip(leading_forward_marks(s) as int))
}

/// The analysis of a subject line: the reply prefixes are stripped and
/// counted first; then, once, a forward prefix is looked for and stripped.
pub open spec fn subject_of(s: Seq<char>) -> SubjectView {
    let (rest, depth) = strip_replies(s);
    if has_forward_prefix(rest) {
        SubjectView { normalized: strip_forward(rest), reply_depth: depth, is_forward: true }
    } else {
        SubjectView { normalized: rest, reply_depth: depth, is_forward: false }
    }
}

proof fn lemma_leading_forward_marks(s: Seq<char>, n: int)
    requires
        0 <= n <= s.len(),
        forall|j: int| 0 <= j < n ==> is_forward_mark(#[trigger] s[j]),
        n == s.len() || !is_forward_mark(s[n]),
    ensures
        leading_forward_marks(s) == n,
    decreases n,
{
    if n > 0 {
        let t = s.drop_first();
        assert forall|j: int| 0 <= j < n - 1 implies is_forward_mark(#[trigger] t[j]) by {
            assert(t[j] == s[j + 1]);
        }
        lemma_leading_forward_marks(t, n - 1);
    }
}

fn forward_mark(c: char) -> (b: bool)
    ensures
        b == is_forward_mark(c),
{
    c == 'F' || c == 'f' || c == 'W' || c == 'w' || c == 'D' || c == 'd' || c == ':'
}

/// Adds `n` to `depth`, stopping at `u32::MAX`.
fn add_depth(depth: u32, n: u32) -> (r: u32)
    ensures
        r as nat == if depth + n <= u32::MAX {
            (depth + n) as nat
        } else {
            u32::MAX as nat
        },
{
    if n > u32::MAX - depth {
        u32::MAX
    } else {
        depth + n
    }
}

/// `n`, or `u32::MAX` where `n` is beyond it.
pub open spec fn capped(n: nat) -> u32 {
    if n <= u32::MAX {
        n as u32
    } else {
        u32::MAX
    }
}

impl Subject {
    /// This is the analysis of the subject line `line`.
    pub open spec fn describes(&self, line: Seq<char>) -> bool {
        &&& self.original@ == line
        &&& self.normalized@ == subject_of(line).normalized
        &&& self.reply_depth == capped(subject_of(line).reply_depth)
        &&& self.is_forward == subject_of(line).is_forward
        &&& self.language is None
    }

    /// Parses a subject line.
    pub fn parse(s: &str) -> (r: Subject)
        ensures
            r.describes(s@),
    {
        let re_colon = chars_of("re:");
        let re_bracket = chars_of("re[");
        let close = chars_of("]:");
        let fwd = chars_of("fwd:");
        let fw = chars_of("fw:");
        proof {
            reveal_strlit("re:");
            reveal_strlit("re[");
            reveal_strlit("]:");
        }
        let mut cur = chars_of(s);
        let mut depth: u32 = 0;
        let ghost mut acc: nat = 0;
        loop
            invariant
                re_colon@ == "re:"@,
                re_bracket@ == "re["@,
                close@ == "]:"@,
                "re:"@.len() == 3,
                "re["@.len() == 3,
                "]:"@.len() == 2,
                strip_replies(s@).0 == strip_replies(cur@).0,
                strip_replies(s@).1 == strip_replies(cur@).1 + acc,
                depth == capped(acc),
            ensures
                strip_replies(s@) == (cur@, acc),
                depth == capped(acc),
            decreases cur.len(),
        {
            assert(cur@.subrange(0, cur@.len() as int) =~= cur@);
            if has_prefix_ignore_case(&cur, 0, cur.len(), &re_colon) {
                proof {
                    acc = acc + 1;
                    assert(cur@.subrange(3, cur@.len() as int) =~= cur@.skip(3));
                    lemma_leading_bounds(cur@.skip(3));
                }
                cur = trimmed_start(&subvec(&cur, 3, cur.len()));
                depth = add_depth(depth, 1);
            } else if has_prefix_ignore_case(&cur, 0, cur.len(), &re_bracket) {
                match find_in(&cur, &close) {
                    Some(end) => {
                        proof {
                            lemma_find(cur@, close@);
                            let p = cur@.subrange(end as int, end + 2);
                            assert(p[0] == cur@[end as int]);
                            assert(p[0] == ']') by {
                                reveal_strlit("]:");
                            }
                            assert(end >= 3) by {
                                reveal_strlit("re[");
                            }
                            assert(cur@.subrange(end + 2, cur@.len() as int) =~= cur@.skip(end + 2));
                            lemma_leading_bounds(cur@.skip(end + 2));
                        }
                        match parse_u32(&cur, 3, end) {
                            Some(count) => {
                                proof {
                                    acc = acc + count as nat;
                                }
                                cur = trimmed_start(&subvec(&cur, end + 2, cur.len()));
                                depth = add_depth(depth, count);
                            },
                            None => {
                                break ;
                            },
                        }
                    },
                    None => {
                        break ;
                    },
                }
            } else {
                break ;
            }
        }
        assert(cur@.subrange(0, cur@.len() as int) =~= cur@);
        let is_forward = has_prefix_ignore_case(&cur, 0, cur.len(), &fwd)
            || has_prefix_ignore_case(&cur, 0, cur.len(), &fw);
        if is_forward {
            let mut a: usize = 0;
            while a < cur.len() && forward_mark(cur[a])
                invariant
                    a <= cur.len(),
                    forall|j: int| 0 <= j < a ==> is_forward_mark(#[trigger] cur@[j]),
                decreases cur.len() - a,
            {
                a += 1;
            }
            proof {
                lemma_leading_forward_marks(cur@, a as int);
                assert(cur@.subrange(a as int, cur@.len() as int) =~= cur@.skip(a as int));
            }
            cur = trimmed_start(&subvec(&cur, a, cur.len()));
        }
        Subject {
            original: s.to_owned(),
            normalized: text_of(&cur),
            reply_depth: depth,
            is_forward,
            language: None,
        }
    }

    /// The subject line as it was given.
    pub fn to_string(&self) -> (r: String)
        ensures
            r@ == self.original@,
    {
        self.original.clone()
    }
}

} // verus!
