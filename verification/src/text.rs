//! Character-level text vocabulary: the spec functions that the contracts of
//! this crate are written in, and verified executable counterparts.
//!
//! A text is modelled as `Seq<char>`, the view of `str` and `String`.

use vstd::prelude::*;
use vstd::string::*;

verus! {

/// `String::push` appends one character.
pub assume_specification[ String::push ](s: &mut String, c: char)
    ensures
        final(s)@ == old(s)@.push(c),
;

/// The lower-cased form of a text, as `str::to_lowercase` computes it from the
/// Unicode case tables.
pub uninterp spec fn lowercase(s: Seq<char>) -> Seq<char>;

/// `str::to_lowercase`: the result is a function of the text alone; its
/// value is only named, not described.
#[verifier::external_body]
pub(crate) fn to_lowercase(s: &str) -> (r: String)
    ensures
        r@ == lowercase(s@),
{
    s.to_lowercase()
}

/// The view of an optional string.
pub open spec fn opt_text(o: Option<String>) -> Option<Seq<char>> {
    match o {
        Some(s) => Some(s@),
        None => None,
    }
}

/// The characters of a string, in order.
pub fn chars_of(s: &str) -> (v: Vec<char>)
    ensures
        v@ == s@,
{
    let mut v: Vec<char> = Vec::new();
    for c in it: s.chars()
        invariant
            v@ == it.seq().take(it.index() as int),
            it.seq() == s@,
    {
        v.push(c);
    }
    v
}

/// The string made of the characters `v[from..to]`.
pub fn string_of(v: &Vec<char>, from: usize, to: usize) -> (s: String)
    requires
        from <= to <= v.len(),
    ensures
        s@ == v@.subrange(from as int, to as int),
{
    let mut s = String::new();
    let mut i: usize = from;
    while i < to
        invariant
            from <= i <= to <= v.len(),
            s@ == v@.subrange(from as int, i as int),
        decreases to - i,
    {
        s.push(v[i]);
        i += 1;
    }
    s
}

/// The string made of the characters of `v`.
pub fn text_of(v: &Vec<char>) -> (s: String)
    ensures
        s@ == v@,
{
    assert(v@.subrange(0, v@.len() as int) =~= v@);
    string_of(v, 0, v.len())
}

/// White space as Unicode defines it (the `White_Space` property).
pub open spec fn is_whitespace(c: char) -> bool {
    let u = c as u32;
    ||| 0x09 <= u <= 0x0D
    ||| u == 0x20
    ||| u == 0x85
    ||| u == 0xA0
    ||| u == 0x1680
    ||| 0x2000 <= u <= 0x200A
    ||| u == 0x2028
    ||| u == 0x2029
    ||| u == 0x202F
    ||| u == 0x205F
    ||| u == 0x3000
}

/// Whether `c` is white space.
pub fn whitespace(c: char) -> (b: bool)
    ensures
        b == is_whitespace(c),
{
    let u: u32 = c as u32;
    (0x09 <= u && u <= 0x0D) || u == 0x20 || u == 0x85 || u == 0xA0 || u == 0x1680 || (0x2000 <= u
        && u <= 0x200A) || u == 0x2028 || u == 0x2029 || u == 0x202F || u == 0x205F || u == 0x3000
}

/// An ASCII decimal digit.
pub open spec fn is_digit(c: char) -> bool {
    '0' <= c <= '9'
}

/// Whether `c` is an ASCII decimal digit.
pub fn digit(c: char) -> (b: bool)
    ensures
        b == is_digit(c),
{
    '0' <= c && c <= '9'
}

/// The lower-case form of an ASCII capital letter; any other character
/// unchanged.
pub open spec fn ascii_lower(c: char) -> char {
    if 'A' <= c <= 'Z' {
        ((c as u8) + 32) as char
    } else {
        c
    }
}

/// The lower-case form of `c` where it is an ASCII capital letter.
pub fn to_ascii_lower(c: char) -> (r: char)
    ensures
        r == ascii_lower(c),
{
    if 'A' <= c && c <= 'Z' {
        ((c as u8) + 32) as char
    } else {
        c
    }
}

/// Number of leading whitespace characters.
pub open spec fn leading_whitespace(s: Seq<char>) -> nat
    decreases s.len(),
{
    if s.len() > 0 && is_whitespace(s[0]) {
        1 + leading_whitespace(s.drop_first())
    } else {
        0
    }
}

/// Number of trailing whitespace characters.
pub open spec fn trailing_whitespace(s: Seq<char>) -> nat
    decreases s.len(),
{
    if s.len() > 0 && is_whitespace(s.last()) {
        1 + trailing_whitespace(s.drop_last())
    } else {
        0
    }
}

/// The text without its leading white space.
pub open spec fn trim_start(s: Seq<char>) -> Seq<char> {
    s.skip(leading_whitespace(s) as int)
}

/// The text without its trailing white space.
pub open spec fn trim_end(s: Seq<char>) -> Seq<char> {
    s.take(s.len() - trailing_whitespace(s))
}

/// The text without its leading and trailing white space.
pub open spec fn trim(s: Seq<char>) -> Seq<char> {
    trim_end(trim_start(s))
}

/// A text whose first `n` characters are white space, and whose next one is
/// not, has `n` characters of leading white space.
pub proof fn lemma_leading_whitespace(s: Seq<char>, n: int)
    requires
        0 <= n <= s.len(),
        forall|j: int| 0 <= j < n ==> is_whitespace(#[trigger] s[j]),
        n == s.len() || !is_whitespace(s[n]),
    ensures
        leading_whitespace(s) == n,
    decreases n,
{
    if n > 0 {
        let t = s.drop_first();
        assert forall|j: int| 0 <= j < n - 1 implies is_whitespace(#[trigger] t[j]) by {
            assert(t[j] == s[j + 1]);
        }
        lemma_leading_whitespace(t, n - 1);
    }
}

/// A text whose last `n` characters are white space, and whose one before
/// them is not, has `n` characters of trailing white space.
pub proof fn lemma_trailing_whitespace(s: Seq<char>, n: int)
    requires
        0 <= n <= s.len(),
        forall|j: int| s.len() - n <= j < s.len() ==> is_whitespace(#[trigger] s[j]),
        n == s.len() || !is_whitespace(s[s.len() - n - 1]),
    ensures
        trailing_whitespace(s) == n,
    decreases n,
{
    if n > 0 {
        let t = s.drop_last();
        assert forall|j: int| t.len() - (n - 1) <= j < t.len() implies is_whitespace(
            #[trigger] t[j],
        ) by {
            assert(t[j] == s[j]);
        }
        lemma_trailing_whitespace(t, n - 1);
    }
}

/// The bounds `(a, b)` of the trimmed part of `v[from..to]`.
pub fn trim_bounds(v: &Vec<char>, from: usize, to: usize) -> (r: (usize, usize))
    requires
        from <= to <= v.len(),
    ensures
        from <= r.0 <= r.1 <= to,
        v@.subrange(r.0 as int, r.1 as int) == trim(v@.subrange(from as int, to as int)),
{
    let ghost s = v@.subrange(from as int, to as int);
    let mut a: usize = from;
    while a < to && whitespace(v[a])
        invariant
            from <= a <= to <= v.len(),
            forall|j: int| from <= j < a ==> is_whitespace(#[trigger] v@[j]),
        decreases to - a,
    {
        a += 1;
    }
    let mut b: usize = to;
    while b > a && whitespace(v[b - 1])
        invariant
            a <= b <= to <= v.len(),
            forall|j: int| b <= j < to ==> is_whitespace(#[trigger] v@[j]),
        decreases b,
    {
        b -= 1;
    }
    proof {
        assert forall|j: int| 0 <= j < a - from implies is_whitespace(#[trigger] s[j]) by {
            assert(s[j] == v@[from + j]);
        }
        lemma_leading_whitespace(s, a - from);
        let t = trim_start(s);
        assert(t =~= v@.subrange(a as int, to as int));
        assert forall|j: int| t.len() - (to - b) <= j < t.len() implies is_whitespace(
            #[trigger] t[j],
        ) by {
            assert(t[j] == v@[a + j]);
        }
        lemma_trailing_whitespace(t, to - b);
        assert(trim(s) =~= v@.subrange(a as int, b as int));
    }
    (a, b)
}

/// A fresh vector holding `v[from..to]`.
pub fn subvec(v: &Vec<char>, from: usize, to: usize) -> (r: Vec<char>)
    requires
        from <= to <= v.len(),
    ensures
        r@ == v@.subrange(from as int, to as int),
{
    let mut r: Vec<char> = Vec::new();
    let mut i: usize = from;
    while i < to
        invariant
            from <= i <= to <= v.len(),
            r@ == v@.subrange(from as int, i as int),
        decreases to - i,
    {
        r.push(v[i]);
        i += 1;
    }
    r
}

/// `v` without its leading and trailing white space.
pub fn trimmed(v: &Vec<char>) -> (r: Vec<char>)
    ensures
        r@ == trim(v@),
{
    let (a, b) = trim_bounds(v, 0, v.len());
    assert(v@.subrange(0, v.len() as int) =~= v@);
    subvec(v, a, b)
}

/// `v` without its leading white space.
pub fn trimmed_start(v: &Vec<char>) -> (r: Vec<char>)
    ensures
        r@ == trim_start(v@),
{
    let mut a: usize = 0;
    while a < v.len() && whitespace(v[a])
        invariant
            a <= v.len(),
            forall|j: int| 0 <= j < a ==> is_whitespace(#[trigger] v@[j]),
        decreases v.len() - a,
    {
        a += 1;
    }
    proof {
        lemma_leading_whitespace(v@, a as int);
    }
    subvec(v, a, v.len())
}

/// `pat` stands in `s` at index `i`.
pub open spec fn occurs_at(s: Seq<char>, pat: Seq<char>, i: int) -> bool {
    &&& 0 <= i
    &&& i + pat.len() <= s.len()
    &&& s.subrange(i, i + pat.len()) == pat
}

/// `pat` occurs somewhere in `s`.
pub open spec fn contains(s: Seq<char>, pat: Seq<char>) -> bool {
    exists|i: int| occurs_at(s, pat, i)
}

/// `s` begins with `pat`.
pub open spec fn starts_with(s: Seq<char>, pat: Seq<char>) -> bool {
    occurs_at(s, pat, 0)
}

/// `s` ends with `pat`.
pub open spec fn ends_with(s: Seq<char>, pat: Seq<char>) -> bool {
    occurs_at(s, pat, s.len() - pat.len())
}

/// The first index at or after `i` at which `pat` occurs in `s`.
pub open spec fn find_from(s: Seq<char>, pat: Seq<char>, i: int) -> Option<int>
    decreases s.len() - i + 1,
{
    if i < 0 || i + pat.len() > s.len() {
        None
    } else if occurs_at(s, pat, i) {
        Some(i)
    } else {
        find_from(s, pat, i + 1)
    }
}

/// The index of the first occurrence of `pat` in `s`.
pub open spec fn find(s: Seq<char>, pat: Seq<char>) -> Option<int> {
    find_from(s, pat, 0)
}

/// `find_from` returns the least index from `i` on at which `pat` occurs.
pub proof fn lemma_find_from(s: Seq<char>, pat: Seq<char>, i: int)
    requires
        0 <= i,
    ensures
        match find_from(s, pat, i) {
            Some(k) => i <= k && occurs_at(s, pat, k) && forall|j: int|
                i <= j < k ==> !occurs_at(s, pat, j),
            None => forall|j: int| i <= j ==> !occurs_at(s, pat, j),
        },
    decreases s.len() - i + 1,
{
    if i + pat.len() > s.len() {
    } else if occurs_at(s, pat, i) {
    } else {
        lemma_find_from(s, pat, i + 1);
    }
}

/// `find` returns the least index at which `pat` occurs, and `None` exactly
/// when `pat` occurs nowhere.
pub proof fn lemma_find(s: Seq<char>, pat: Seq<char>)
    ensures
        find(s, pat) is Some <==> contains(s, pat),
        match find(s, pat) {
            Some(k) => occurs_at(s, pat, k) && forall|j: int| 0 <= j < k ==> !occurs_at(s, pat, j),
            None => true,
        },
{
    lemma_find_from(s, pat, 0);
}

/// Whether `pat` stands in `v` at index `i`.
pub fn occurs(v: &Vec<char>, i: usize, pat: &Vec<char>) -> (b: bool)
    ensures
        b == occurs_at(v@, pat@, i as int),
{
    if i > v.len() || pat.len() > v.len() - i {
        return false;
    }
    let mut k: usize = 0;
    while k < pat.len()
        invariant
            k <= pat.len(),
            i + pat.len() <= v.len(),
            forall|j: int| 0 <= j < k ==> v@[i + j] == pat@[j],
        decreases pat.len() - k,
    {
        if v[i + k] != pat[k] {
            assert(v@.subrange(i as int, i + pat.len())[k as int] == v@[i + k]);
            return false;
        }
        k += 1;
    }
    assert(v@.subrange(i as int, i + pat.len()) =~= pat@);
    true
}

/// The index of the first occurrence of `pat` in `v`.
pub fn find_in(v: &Vec<char>, pat: &Vec<char>) -> (r: Option<usize>)
    ensures
        match r {
            Some(i) => find(v@, pat@) == Some(i as int),
            None => find(v@, pat@) is None,
        },
{
    if pat.len() > v.len() {
        return None;
    }
    let last: usize = v.len() - pat.len();
    let mut i: usize = 0;
    loop
        invariant
            i <= last,
            last == v.len() - pat.len(),
            find(v@, pat@) == find_from(v@, pat@, i as int),
        decreases last - i,
    {
        if occurs(v, i, pat) {
            return Some(i);
        }
        if i == last {
            assert(find_from(v@, pat@, i + 1) is None);
            return None;
        }
        i += 1;
    }
}

/// Whether `pat` occurs in `v`.
pub fn contains_text(v: &Vec<char>, pat: &Vec<char>) -> (b: bool)
    ensures
        b == contains(v@, pat@),
{
    proof {
        lemma_find(v@, pat@);
    }
    find_in(v, pat).is_some()
}

/// Whether `v` begins with `pat`.
pub fn has_prefix(v: &Vec<char>, pat: &Vec<char>) -> (b: bool)
    ensures
        b == starts_with(v@, pat@),
{
    occurs(v, 0, pat)
}

/// Whether `v` ends with `pat`.
pub fn has_suffix(v: &Vec<char>, pat: &Vec<char>) -> (b: bool)
    ensures
        b == ends_with(v@, pat@),
{
    if pat.len() > v.len() {
        return false;
    }
    occurs(v, v.len() - pat.len(), pat)
}

/// Equality of two texts.
pub fn same_text(a: &Vec<char>, b: &Vec<char>) -> (r: bool)
    ensures
        r == (a@ == b@),
{
    if a.len() != b.len() {
        return false;
    }
    let r = occurs(a, 0, b);
    assert(a@.subrange(0, b@.len() as int) =~= a@);
    r
}

/// Number of leading characters other than `c`.
pub open spec fn leading_not(s: Seq<char>, c: char) -> nat
    decreases s.len(),
{
    if s.len() > 0 && s[0] != c {
        1 + leading_not(s.drop_first(), c)
    } else {
        0
    }
}

/// The index of the first `c` in `s`.
pub open spec fn index_of(s: Seq<char>, c: char) -> Option<int> {
    if leading_not(s, c) < s.len() {
        Some(leading_not(s, c) as int)
    } else {
        None
    }
}

/// A text whose first `n` characters are other than `c`, and whose next one
/// is `c`, has `n` leading characters other than `c`.
pub proof fn lemma_leading_not(s: Seq<char>, c: char, n: int)
    requires
        0 <= n <= s.len(),
        forall|j: int| 0 <= j < n ==> #[trigger] s[j] != c,
        n == s.len() || s[n] == c,
    ensures
        leading_not(s, c) == n,
    decreases n,
{
    if n > 0 {
        let t = s.drop_first();
        assert forall|j: int| 0 <= j < n - 1 implies #[trigger] t[j] != c by {
            assert(t[j] == s[j + 1]);
        }
        lemma_leading_not(t, c, n - 1);
    }
}

/// What `index_of` returns is the least index that holds `c`.
pub proof fn lemma_index_of(s: Seq<char>, c: char)
    ensures
        match index_of(s, c) {
            Some(k) => 0 <= k < s.len() && s[k] == c && forall|j: int|
                0 <= j < k ==> #[trigger] s[j] != c,
            None => forall|j: int| 0 <= j < s.len() ==> #[trigger] s[j] != c,
        },
    decreases s.len(),
{
    if s.len() > 0 && s[0] != c {
        let t = s.drop_first();
        lemma_index_of(t, c);
        match index_of(t, c) {
            Some(k) => {
                assert forall|j: int| 0 <= j < k + 1 implies #[trigger] s[j] != c by {
                    if j > 0 {
                        assert(s[j] == t[j - 1]);
                    }
                }
                assert(s[k + 1] == t[k]);
            },
            None => {
                assert forall|j: int| 0 <= j < s.len() implies #[trigger] s[j] != c by {
                    if j > 0 {
                        assert(s[j] == t[j - 1]);
                    }
                }
            },
        }
    }
}

/// The index of the first `c` in `v`.
pub fn position_of(v: &Vec<char>, c: char) -> (r: Option<usize>)
    ensures
        match r {
            Some(i) => index_of(v@, c) == Some(i as int) && i < v.len(),
            None => index_of(v@, c) is None,
        },
{
    let mut i: usize = 0;
    while i < v.len() && v[i] != c
        invariant
            i <= v.len(),
            forall|j: int| 0 <= j < i ==> #[trigger] v@[j] != c,
        decreases v.len() - i,
    {
        i += 1;
    }
    proof {
        lemma_leading_not(v@, c, i as int);
    }
    if i < v.len() {
        Some(i)
    } else {
        None
    }
}


/// Number of leading characters that are not white space.
pub open spec fn leading_word(s: Seq<char>) -> nat
    decreases s.len(),
{
    if s.len() > 0 && !is_whitespace(s[0]) {
        1 + leading_word(s.drop_first())
    } else {
        0
    }
}

/// A text whose first `n` characters are no white space, and whose next one
/// is, begins with a word of `n` characters.
pub proof fn lemma_leading_word(s: Seq<char>, n: int)
    requires
        0 <= n <= s.len(),
        forall|j: int| 0 <= j < n ==> !is_whitespace(#[trigger] s[j]),
        n == s.len() || is_whitespace(s[n]),
    ensures
        leading_word(s) == n,
    decreases n,
{
    if n > 0 {
        let t = s.drop_first();
        assert forall|j: int| 0 <= j < n - 1 implies !is_whitespace(#[trigger] t[j]) by {
            assert(t[j] == s[j + 1]);
        }
        lemma_leading_word(t, n - 1);
    }
}

/// The counts of leading and trailing characters are within the length of
/// the text.
pub proof fn lemma_leading_bounds(s: Seq<char>)
    ensures
        leading_whitespace(s) <= s.len(),
        leading_word(s) <= s.len(),
        trailing_whitespace(s) <= s.len(),
    decreases s.len(),
{
    if s.len() > 0 {
        lemma_leading_bounds(s.drop_first());
        lemma_leading_bounds(s.drop_last());
    }
}

/// What is left after the leading white space starts with another character.
pub proof fn lemma_trim_start_head(s: Seq<char>)
    ensures
        leading_whitespace(s) <= s.len(),
        trim_start(s).len() > 0 ==> !is_whitespace(trim_start(s)[0]),
    decreases s.len(),
{
    if s.len() > 0 && is_whitespace(s[0]) {
        let t = s.drop_first();
        lemma_trim_start_head(t);
        assert(trim_start(s) =~= trim_start(t));
    }
}

/// The words of a text: its maximal runs of characters that are not white
/// space, in order.
pub open spec fn split_whitespace(s: Seq<char>) -> Seq<Seq<char>>
    decreases s.len(),
    via split_whitespace_decreases
{
    let t = trim_start(s);
    if t.len() == 0 {
        Seq::empty()
    } else {
        let n = leading_word(t) as int;
        seq![t.take(n)] + split_whitespace(t.skip(n))
    }
}

#[via_fn]
proof fn split_whitespace_decreases(s: Seq<char>) {
    let t = trim_start(s);
    lemma_leading_bounds(s);
    if t.len() != 0 {
        lemma_leading_bounds(t);
        lemma_trim_start_head(s);
    }
}

/// The view of a vector of texts.
pub open spec fn texts(v: Seq<Vec<char>>) -> Seq<Seq<char>> {
    v.map_values(|w: Vec<char>| w@)
}

/// The words of `v`.
pub fn words(v: &Vec<char>) -> (r: Vec<Vec<char>>)
    ensures
        texts(r@) == split_whitespace(v@),
{
    let mut r: Vec<Vec<char>> = Vec::new();
    let mut i: usize = 0;
    proof {
        assert(v@.skip(0) =~= v@);
        assert(texts(r@) + split_whitespace(v@) =~= split_whitespace(v@));
    }
    loop
        invariant
            i <= v.len(),
            split_whitespace(v@) == texts(r@) + split_whitespace(v@.skip(i as int)),
        decreases v.len() - i,
    {
        let ghost rest = v@.skip(i as int);
        let mut a: usize = i;
        while a < v.len() && whitespace(v[a])
            invariant
                i <= a <= v.len(),
                forall|j: int| i <= j < a ==> is_whitespace(#[trigger] v@[j]),
            decreases v.len() - a,
        {
            a += 1;
        }
        proof {
            assert forall|j: int| 0 <= j < a - i implies is_whitespace(#[trigger] rest[j]) by {
                assert(rest[j] == v@[i + j]);
            }
            lemma_leading_whitespace(rest, a - i);
            assert(trim_start(rest) =~= v@.skip(a as int));
        }
        if a == v.len() {
            proof {
                assert(split_whitespace(rest) =~= Seq::<Seq<char>>::empty());
                assert(texts(r@) + split_whitespace(rest) =~= texts(r@));
            }
            return r;
        }
        let mut b: usize = a;
        while b < v.len() && !whitespace(v[b])
            invariant
                a <= b <= v.len(),
                forall|j: int| a <= j < b ==> !is_whitespace(#[trigger] v@[j]),
            decreases v.len() - b,
        {
            b += 1;
        }
        let w = subvec(v, a, b);
        proof {
            let t = v@.skip(a as int);
            assert forall|j: int| 0 <= j < b - a implies !is_whitespace(#[trigger] t[j]) by {
                assert(t[j] == v@[a + j]);
            }
            lemma_leading_word(t, b - a);
            assert(t.take(b - a) =~= w@);
            assert(t.skip(b - a) =~= v@.skip(b as int));
            assert(split_whitespace(rest) == seq![w@] + split_whitespace(v@.skip(b as int)));
            assert(texts(r@.push(w)) =~= texts(r@) + seq![w@]);
            assert(texts(r@) + (seq![w@] + split_whitespace(v@.skip(b as int))) =~= (texts(r@)
                + seq![w@]) + split_whitespace(v@.skip(b as int)));
        }
        r.push(w);
        i = b;
    }
}

/// The pieces of `s` between the occurrences of `c`; one piece more than
/// there are occurrences.
pub open spec fn split(s: Seq<char>, c: char) -> Seq<Seq<char>>
    decreases s.len(),
    via split_decreases
{
    match index_of(s, c) {
        Some(i) => seq![s.take(i)] + split(s.skip(i + 1), c),
        None => seq![s],
    }
}

#[via_fn]
proof fn split_decreases(s: Seq<char>, c: char) {
    lemma_index_of(s, c);
}

/// The pieces of `v` between the occurrences of `c`.
pub fn split_on(v: &Vec<char>, c: char) -> (r: Vec<Vec<char>>)
    ensures
        texts(r@) == split(v@, c),
{
    let mut r: Vec<Vec<char>> = Vec::new();
    let mut i: usize = 0;
    proof {
        assert(v@.skip(0) =~= v@);
        assert(texts(r@) + split(v@, c) =~= split(v@, c));
    }
    loop
        invariant
            i <= v.len(),
            split(v@, c) == texts(r@) + split(v@.skip(i as int), c),
        decreases v.len() - i,
    {
        let ghost rest = v@.skip(i as int);
        let mut b: usize = i;
        while b < v.len() && v[b] != c
            invariant
                i <= b <= v.len(),
                forall|j: int| i <= j < b ==> #[trigger] v@[j] != c,
            decreases v.len() - b,
        {
            b += 1;
        }
        let w = subvec(v, i, b);
        proof {
            assert forall|j: int| 0 <= j < b - i implies #[trigger] rest[j] != c by {
                assert(rest[j] == v@[i + j]);
            }
            lemma_leading_not(rest, c, b - i);
            assert(texts(r@.push(w)) =~= texts(r@) + seq![w@]);
        }
        if b == v.len() {
            proof {
                assert(rest =~= w@);
                assert(split(rest, c) == seq![rest]);
            }
            r.push(w);
            return r;
        }
        proof {
            assert(rest.take(b - i) =~= w@);
            assert(rest.skip(b - i + 1) =~= v@.skip(b + 1));
            assert(split(rest, c) == seq![w@] + split(v@.skip(b + 1), c));
            assert(texts(r@) + (seq![w@] + split(v@.skip(b + 1), c)) =~= (texts(r@) + seq![w@])
                + split(v@.skip(b + 1), c));
        }
        r.push(w);
        i = b + 1;
    }
}


/// `s` begins with `pat`, where ASCII letters are compared without regard to
/// case.
pub open spec fn starts_with_ignore_case(s: Seq<char>, pat: Seq<char>) -> bool {
    &&& pat.len() <= s.len()
    &&& forall|k: int| 0 <= k < pat.len() ==> ascii_lower(#[trigger] s[k]) == ascii_lower(pat[k])
}

/// Whether `v[from..to]` begins with `pat`, ASCII case ignored.
pub fn has_prefix_ignore_case(v: &Vec<char>, from: usize, to: usize, pat: &Vec<char>) -> (b: bool)
    requires
        from <= to <= v.len(),
    ensures
        b == starts_with_ignore_case(v@.subrange(from as int, to as int), pat@),
{
    let ghost s = v@.subrange(from as int, to as int);
    if pat.len() > to - from {
        return false;
    }
    let mut k: usize = 0;
    while k < pat.len()
        invariant
            k <= pat.len() <= to - from,
            from <= to <= v.len(),
            s == v@.subrange(from as int, to as int),
            forall|j: int| 0 <= j < k ==> ascii_lower(#[trigger] s[j]) == ascii_lower(pat@[j]),
        decreases pat.len() - k,
    {
        if to_ascii_lower(v[from + k]) != to_ascii_lower(pat[k]) {
            assert(s[k as int] == v@[from + k]);
            return false;
        }
        assert(s[k as int] == v@[from + k]);
        k += 1;
    }
    true
}

/// `s` with every occurrence of `from` replaced by `to`, the occurrences
/// taken from the left and not overlapping. An empty `from` occurs nowhere.
pub open spec fn replace(s: Seq<char>, from: Seq<char>, to: Seq<char>) -> Seq<char>
    decreases s.len(),
{
    if from.len() == 0 || s.len() < from.len() {
        s
    } else if starts_with(s, from) {
        to + replace(s.skip(from.len() as int), from, to)
    } else {
        s.take(1) + replace(s.skip(1), from, to)
    }
}

/// `v` with every occurrence of `from` replaced by `to`.
pub fn replace_all(v: &Vec<char>, from: &Vec<char>, to: &Vec<char>) -> (r: Vec<char>)
    ensures
        r@ == replace(v@, from@, to@),
{
    if from.len() == 0 {
        assert(v@.subrange(0, v@.len() as int) =~= v@);
        return subvec(v, 0, v.len());
    }
    let mut r: Vec<char> = Vec::new();
    let mut i: usize = 0;
    proof {
        assert(v@.skip(0) =~= v@);
    }
    while i < v.len()
        invariant
            i <= v.len(),
            from.len() > 0,
            replace(v@, from@, to@) == r@ + replace(v@.skip(i as int), from@, to@),
        decreases v.len() - i,
    {
        let ghost rest = v@.skip(i as int);
        let ghost before = r@;
        if occurs(v, i, from) {
            proof {
                assert(rest.subrange(0, from@.len() as int) =~= v@.subrange(
                    i as int,
                    i + from@.len(),
                ));
                assert(rest.skip(from@.len() as int) =~= v@.skip(i + from@.len()));
            }
            let mut k: usize = 0;
            while k < to.len()
                invariant
                    k <= to.len(),
                    r@ == before + to@.take(k as int),
                decreases to.len() - k,
            {
                r.push(to[k]);
                assert(before + to@.take(k as int + 1) =~= (before + to@.take(k as int)).push(
                    to@[k as int],
                ));
                k += 1;
            }
            proof {
                assert(to@.take(to@.len() as int) =~= to@);
                assert((before + to@) + replace(rest.skip(from@.len() as int), from@, to@)
                    =~= before + (to@ + replace(rest.skip(from@.len() as int), from@, to@)));
            }
            i += from.len();
        } else {
            proof {
                if rest.len() >= from@.len() {
                    assert(rest.subrange(0, from@.len() as int) =~= v@.subrange(
                        i as int,
                        i + from@.len(),
                    ));
                    assert(rest.skip(1) =~= v@.skip(i + 1));
                    assert(before.push(v@[i as int]) + replace(rest.skip(1), from@, to@)
                        =~= before + (rest.take(1) + replace(rest.skip(1), from@, to@)));
                } else {
                    lemma_replace_short(rest, from@, to@);
                    lemma_replace_short(rest.skip(1), from@, to@);
                    assert(rest.skip(1) =~= v@.skip(i + 1));
                    assert(before.push(v@[i as int]) + rest.skip(1) =~= before + rest);
                }
            }
            r.push(v[i]);
            i += 1;
        }
    }
    proof {
        assert(r@ + replace(v@.skip(i as int), from@, to@) =~= r@);
    }
    r
}

/// A text shorter than the pattern is left as it is.
pub proof fn lemma_replace_short(s: Seq<char>, from: Seq<char>, to: Seq<char>)
    requires
        s.len() < from.len(),
    ensures
        replace(s, from, to) == s,
{
}


/// Every character of `s` is an ASCII decimal digit.
pub open spec fn all_digits(s: Seq<char>) -> bool {
    forall|i: int| 0 <= i < s.len() ==> is_digit(#[trigger] s[i])
}

/// The number that the decimal digits `s` write.
pub open spec fn digits_value(s: Seq<char>) -> nat
    decreases s.len(),
{
    if s.len() == 0 {
        0
    } else {
        digits_value(s.drop_last()) * 10 + (s.last() as nat - '0' as nat) as nat
    }
}

/// The `u32` that a text writes in decimal: one or more ASCII digits, with
/// one `+` before them or none, of a value that `u32` holds. Any other text
/// writes no number.
pub open spec fn parsed_u32(s: Seq<char>) -> Option<u32> {
    let d = if s.len() > 0 && s[0] == '+' {
        s.skip(1)
    } else {
        s
    };
    if d.len() > 0 && all_digits(d) && digits_value(d) <= u32::MAX {
        Some(digits_value(d) as u32)
    } else {
        None
    }
}

/// Reads `v[from..to]` as a decimal `u32`.
pub fn parse_u32(v: &Vec<char>, from: usize, to: usize) -> (r: Option<u32>)
    requires
        from <= to <= v.len(),
    ensures
        r == parsed_u32(v@.subrange(from as int, to as int)),
{
    let ghost s = v@.subrange(from as int, to as int);
    let start: usize = if from < to && v[from] == '+' {
        from + 1
    } else {
        from
    };
    let ghost d = v@.subrange(start as int, to as int);
    proof {
        if from < to {
            assert(s[0] == v@[from as int]);
        }
        if start > from {
            assert(s.skip(1) =~= d);
        } else {
            assert(s =~= d);
        }
    }
    if start == to {
        return None;
    }
    let mut acc: u64 = 0;
    let mut overflow = false;
    let mut k: usize = start;
    proof {
        assert(d.take(0) =~= Seq::<char>::empty());
    }
    while k < to
        invariant
            start <= k <= to <= v.len(),
            from <= to,
            s == v@.subrange(from as int, to as int),
            d == v@.subrange(start as int, to as int),
            d == if s.len() > 0 && s[0] == '+' {
                s.skip(1)
            } else {
                s
            },
            all_digits(d.take(k - start)),
            !overflow ==> acc == digits_value(d.take(k - start)) && acc <= u32::MAX,
            overflow ==> digits_value(d.take(k - start)) > u32::MAX,
        decreases to - k,
    {
        let c = v[k];
        let ghost prev = d.take(k - start);
        let ghost next = d.take(k - start + 1);
        proof {
            assert(d[k - start] == c);
            assert(next.drop_last() =~= prev);
            assert(next.last() == c);
        }
        if !digit(c) {
            assert(!all_digits(d));
            return None;
        }
        proof {
            assert forall|i: int| 0 <= i < next.len() implies is_digit(#[trigger] next[i]) by {
                if i < prev.len() {
                    assert(next[i] == prev[i]);
                }
            }
        }
        if !overflow {
            let value: u64 = acc * 10 + (c as u64 - '0' as u64);
            if value > 0xFFFF_FFFF {
                overflow = true;
            } else {
                acc = value;
            }
        }
        k += 1;
    }
    proof {
        assert(d.take(to - start) =~= d);
    }
    if overflow {
        None
    } else {
        Some(acc as u32)
    }
}


/// Every character of `s` is white space.
pub open spec fn all_whitespace(s: Seq<char>) -> bool {
    forall|i: int| 0 <= i < s.len() ==> is_whitespace(#[trigger] s[i])
}

/// The leading white space is white space, and what follows it is not.
pub proof fn lemma_leading_whitespace_is(s: Seq<char>)
    ensures
        leading_whitespace(s) <= s.len(),
        forall|j: int| 0 <= j < leading_whitespace(s) ==> is_whitespace(#[trigger] s[j]),
        leading_whitespace(s) < s.len() ==> !is_whitespace(s[leading_whitespace(s) as int]),
    decreases s.len(),
{
    if s.len() > 0 && is_whitespace(s[0]) {
        let t = s.drop_first();
        lemma_leading_whitespace_is(t);
        assert forall|j: int| 0 <= j < leading_whitespace(s) implies is_whitespace(
            #[trigger] s[j],
        ) by {
            if j > 0 {
                assert(s[j] == t[j - 1]);
            }
        }
        if leading_whitespace(s) < s.len() {
            assert(s[leading_whitespace(s) as int] == t[leading_whitespace(t) as int]);
        }
    }
}

/// The trailing white space is white space, and what stands before it is not.
pub proof fn lemma_trailing_whitespace_is(s: Seq<char>)
    ensures
        trailing_whitespace(s) <= s.len(),
        forall|j: int|
            s.len() - trailing_whitespace(s) <= j < s.len() ==> is_whitespace(#[trigger] s[j]),
        trailing_whitespace(s) < s.len() ==> !is_whitespace(
            s[s.len() - trailing_whitespace(s) - 1],
        ),
    decreases s.len(),
{
    if s.len() > 0 && is_whitespace(s.last()) {
        let t = s.drop_last();
        lemma_trailing_whitespace_is(t);
        assert forall|j: int| s.len() - trailing_whitespace(s) <= j < s.len() implies is_whitespace(
            #[trigger] s[j],
        ) by {
            if j < s.len() - 1 {
                assert(s[j] == t[j]);
            }
        }
        if trailing_whitespace(s) < s.len() {
            assert(s[s.len() - trailing_whitespace(s) - 1] == t[t.len() - trailing_whitespace(t)
                - 1]);
        }
    }
}

/// A text made of white space, a core that neither begins nor ends with
/// white space, and white space again trims to that core.
pub proof fn lemma_trim_of_parts(before: Seq<char>, core: Seq<char>, after: Seq<char>)
    requires
        all_whitespace(before),
        all_whitespace(after),
        core.len() > 0 ==> !is_whitespace(core[0]) && !is_whitespace(core.last()),
    ensures
        trim(before + core + after) == core,
{
    let s = before + core + after;
    if core.len() == 0 {
        assert forall|j: int| 0 <= j < s.len() implies is_whitespace(#[trigger] s[j]) by {
            if j < before.len() {
                assert(s[j] == before[j]);
            } else {
                assert(s[j] == after[j - before.len()]);
            }
        }
        lemma_leading_whitespace(s, s.len() as int);
        assert(trim_start(s) =~= Seq::<char>::empty());
        assert(trim(s) =~= core);
    } else {
        assert forall|j: int| 0 <= j < before.len() implies is_whitespace(#[trigger] s[j]) by {
            assert(s[j] == before[j]);
        }
        assert(s[before.len() as int] == core[0]);
        lemma_leading_whitespace(s, before.len() as int);
        let t = trim_start(s);
        assert(t =~= core + after);
        assert forall|j: int| t.len() - after.len() <= j < t.len() implies is_whitespace(
            #[trigger] t[j],
        ) by {
            assert(t[j] == after[j - core.len()]);
        }
        assert(t[t.len() - after.len() - 1] == core.last());
        lemma_trailing_whitespace(t, after.len() as int);
        assert(trim(s) =~= core);
    }
}

/// A text is the white space before its trimmed part, that part, and the
/// white space after it; the trimmed part neither begins nor ends with white
/// space.
pub proof fn lemma_trim_parts(s: Seq<char>) -> (r: (Seq<char>, Seq<char>))
    ensures
        s == r.0 + trim(s) + r.1,
        all_whitespace(r.0),
        all_whitespace(r.1),
        trim(s).len() > 0 ==> !is_whitespace(trim(s)[0]) && !is_whitespace(trim(s).last()),
        trim(s).len() == 0 ==> r.1.len() == 0,
        trim(s).len() > 0 ==> r.0.len() == leading_whitespace(s) && r.1.len()
            == trailing_whitespace(s),
{
    lemma_leading_whitespace_is(s);
    let a = leading_whitespace(s) as int;
    let t = trim_start(s);
    lemma_trailing_whitespace_is(t);
    let b = trailing_whitespace(t) as int;
    let before = s.take(a);
    let after = t.skip(t.len() - b);
    assert(s =~= before + trim(s) + after);
    if t.len() > 0 {
        assert(t[0] == s[a]);
        assert(b < t.len()) by {
            if b == t.len() {
                assert(is_whitespace(t[0]));
            }
        }
        assert(trim(s).last() == t[t.len() - b - 1]);
        assert(trim(s)[0] == t[0]);
        assert forall|j: int| s.len() - b <= j < s.len() implies is_whitespace(#[trigger] s[j]) by {
            assert(s[j] == t[j - a]);
        }
        assert(s[s.len() - b - 1] == t[t.len() - b - 1]);
        lemma_trailing_whitespace(s, b);
    } else {
        assert(after =~= Seq::<char>::empty());
    }
    (before, after)
}

} // verus!
