//! The body of a message: its text, the signature block at its end, and the
//! counts taken of it.

use crate::html::html_text;
use crate::text::{
    all_whitespace, chars_of, find, find_in, is_whitespace, leading_whitespace, lemma_find,
    lemma_leading_whitespace_is, lemma_trailing_whitespace_is, lemma_trim_of_parts,
    lemma_trim_parts, opt_text, split, split_whitespace, subvec, text_of, texts,
    trailing_whitespace, trim, trimmed,
};
use vstd::prelude::*;
use vstd::string::*;
use vstd::utf8::encode_utf8;

verus! {

/// Email body content.
#[derive(Debug, Clone)]
pub struct Body {
    /// Plain text content.
    pub text: String,
    /// HTML content (if available).
    pub html: Option<String>,
    /// Text extracted from HTML (if HTML-only email).
    pub text_from_html: Option<String>,
    /// Word count of the best text.
    pub word_count: usize,
    /// Length of the best text in bytes.
    pub char_count: usize,
    /// Line count of the best text.
    pub line_count: usize,
    /// Detected language.
    pub language: Option<String>,
    /// Has attachments indicator from content type.
    pub has_attachments: bool,
    /// Signature block (if detected and separated).
    pub signature: Option<String>,
    /// Main content without signature.
    pub content_without_signature: String,
}

/// The best available text: the plain text where there is any, else the
/// text taken from the HTML, else nothing.
pub open spec fn best_of(text: Seq<char>, text_from_html: Option<Seq<char>>) -> Seq<char> {
    if text.len() > 0 {
        text
    } else {
        match text_from_html {
            Some(t) => t,
            None => Seq::empty(),
        }
    }
}

/// The number of lines of a text: of the pieces between its newlines, less
/// the last one where that is empty.
pub open spec fn line_count(s: Seq<char>) -> nat {
    let pieces = split(s, '\n');
    if pieces.last().len() == 0 {
        (pieces.len() - 1) as nat
    } else {
        pieces.len()
    }
}

/// A text has at least one piece between the occurrences of a character.
pub proof fn lemma_split_nonempty(s: Seq<char>, c: char)
    ensures
        split(s, c).len() > 0,
    decreases s.len(),
{
    crate::text::lemma_index_of(s, c);
    match crate::text::index_of(s, c) {
        Some(i) => {
            lemma_split_nonempty(s.skip(i + 1), c);
        },
        None => {},
    }
}

/// The signature delimiters, in the order of their priority.
pub open spec fn delimiters() -> Seq<Seq<char>> {
    seq!["--\n"@, "-- \n"@, "---\n"@, "Best regards"@, "Kind regards"@, "Regards,"@]
}

/// Where the signature of `text` begins if `delimiter` is the one that
/// separates it: at the first occurrence of the delimiter, if what stands
/// from there on is more than white space.
pub open spec fn signature_start_by(text: Seq<char>, delimiter: Seq<char>) -> Option<int> {
    match find(text, delimiter) {
        Some(pos) => if trim(text.skip(pos)).len() > 0 {
            Some(pos)
        } else {
            None
        },
        None => None,
    }
}

/// Where the signature begins by the first of the delimiters from index `k`
/// on that separates one.
pub open spec fn signature_start_from(text: Seq<char>, delims: Seq<Seq<char>>, k: int) -> Option<
    int,
>
    decreases delims.len() - k,
{
    if k < 0 || k >= delims.len() {
        None
    } else {
        match signature_start_by(text, delims[k]) {
            Some(pos) => Some(pos),
            None => signature_start_from(text, delims, k + 1),
        }
    }
}

/// Where the signature block of `text` begins. The delimiters are tried in
/// the order of their priority, not of their place in the text.
pub open spec fn signature_start(text: Seq<char>) -> Option<int> {
    signature_start_from(text, delimiters(), 0)
}

/// The content of `text` without its signature block.
pub open spec fn content_of(text: Seq<char>) -> Seq<char> {
    match signature_start(text) {
        Some(pos) => trim(text.take(pos)),
        None => text,
    }
}

/// The signature block of `text`.
pub open spec fn signature_of(text: Seq<char>) -> Option<Seq<char>> {
    match signature_start(text) {
        Some(pos) => Some(trim(text.skip(pos))),
        None => None,
    }
}

/// The white space that separated content and signature in `text`, which
/// neither of the two keeps.
pub open spec fn signature_gap(text: Seq<char>) -> Seq<char> {
    match signature_start(text) {
        Some(pos) => {
            let head = text.take(pos);
            let tail = text.skip(pos);
            if trim(head).len() == 0 {
                Seq::empty()
            } else {
                head.skip(head.len() - trailing_whitespace(head)) + tail.take(
                    leading_whitespace(tail) as int,
                )
            }
        },
        None => Seq::empty(),
    }
}

/// Where the signature begins lies within the text.
pub proof fn lemma_signature_start_bounds(text: Seq<char>)
    ensures
        match signature_start(text) {
            Some(pos) => 0 <= pos <= text.len() && trim(text.skip(pos)).len() > 0,
            None => true,
        },
{
    lemma_signature_start_from(text, delimiters(), 0);
}

proof fn lemma_signature_start_from(text: Seq<char>, delims: Seq<Seq<char>>, k: int)
    ensures
        match signature_start_from(text, delims, k) {
            Some(pos) => 0 <= pos <= text.len() && trim(text.skip(pos)).len() > 0,
            None => true,
        },
    decreases delims.len() - k,
{
    if 0 <= k < delims.len() {
        lemma_find(text, delims[k]);
        lemma_signature_start_from(text, delims, k + 1);
    }
}

/// Content, the white space that separated the two, and signature make up
/// the trimmed text again. Without a signature the content is the text.
pub proof fn lemma_signature_reconstructs(text: Seq<char>)
    ensures
        match signature_of(text) {
            Some(sig) => trim(text) == content_of(text) + signature_gap(text) + sig
                && all_whitespace(signature_gap(text)),
            None => content_of(text) == text,
        },
{
    lemma_signature_start_bounds(text);
    match signature_start(text) {
        Some(pos) => {
            let head = text.take(pos);
            let tail = text.skip(pos);
            let content = trim(head);
            let sig = trim(tail);
            let (h0, h1) = lemma_trim_parts(head);
            let (t0, t1) = lemma_trim_parts(tail);
            assert(text =~= head + tail);
            lemma_trailing_whitespace_is(head);
            lemma_leading_whitespace_is(tail);
            if content.len() == 0 {
                let before = h0 + t0;
                assert(all_whitespace(before)) by {
                    assert forall|j: int| 0 <= j < before.len() implies is_whitespace(
                        #[trigger] before[j],
                    ) by {
                        if j < h0.len() {
                            assert(before[j] == h0[j]);
                        } else {
                            assert(before[j] == t0[j - h0.len()]);
                        }
                    }
                }
                assert(text =~= before + sig + t1);
                lemma_trim_of_parts(before, sig, t1);
                assert(content + signature_gap(text) + sig =~= sig);
            } else {
                let gap = signature_gap(text);
                assert(h1 =~= head.skip(head.len() - trailing_whitespace(head)));
                assert(t0 =~= tail.take(leading_whitespace(tail) as int));
                assert(gap == h1 + t0);
                assert(all_whitespace(gap)) by {
                    assert forall|j: int| 0 <= j < gap.len() implies is_whitespace(
                        #[trigger] gap[j],
                    ) by {
                        if j < h1.len() {
                            assert(gap[j] == h1[j]);
                        } else {
                            assert(gap[j] == t0[j - h1.len()]);
                        }
                    }
                }
                let core = content + gap + sig;
                assert(core[0] == content[0]);
                assert(core.last() == sig.last());
                assert(text =~= h0 + core + t1);
                lemma_trim_of_parts(h0, core, t1);
            }
        },
        None => {},
    }
}

/// Round trip: where no white space separated content and signature, the
/// content followed by the signature is, after trimming, the trimmed text.
pub proof fn lemma_signature_round_trip(text: Seq<char>)
    requires
        signature_gap(text).len() == 0,
    ensures
        trim(
            content_of(text) + match signature_of(text) {
                Some(sig) => sig,
                None => Seq::empty(),
            },
        ) == trim(text),
{
    lemma_signature_reconstructs(text);
    lemma_signature_start_bounds(text);
    match signature_start(text) {
        Some(pos) => {
            let content = content_of(text);
            let sig = trim(text.skip(pos));
            let (h0, h1) = lemma_trim_parts(text.take(pos));
            let (t0, t1) = lemma_trim_parts(text.skip(pos));
            let whole = content + sig;
            assert(content + signature_gap(text) + sig =~= whole);
            if content.len() > 0 {
                assert(whole[0] == content[0]);
            } else {
                assert(whole =~= sig);
            }
            assert(whole.last() == sig.last());
            assert(whole =~= Seq::<char>::empty() + whole + Seq::<char>::empty());
            lemma_trim_of_parts(Seq::empty(), whole, Seq::empty());
        },
        None => {
            assert(content_of(text) + Seq::<char>::empty() =~= text);
        },
    }
}

/// Round trip for a body: where its derived fields agree with its text and
/// no white space separated content and signature, the content followed by
/// the signature is, after trimming, the trimmed best text.
pub proof fn lemma_body_round_trip(body: Body)
    requires
        body.wf(),
        signature_gap(body.best()).len() == 0,
    ensures
        trim(
            body.content_without_signature@ + match body.signature {
                Some(sig) => sig@,
                None => Seq::empty(),
            },
        ) == trim(body.best()),
{
    lemma_signature_round_trip(body.best());
}

/// Splits a plain text into its content and its signature block.
pub fn separate_signature(text: &str) -> (r: (String, Option<String>))
    ensures
        r.0@ == content_of(text@),
        opt_text(r.1) == signature_of(text@),
{
    let v = chars_of(text);
    let mut delims: Vec<Vec<char>> = Vec::new();
    delims.push(chars_of("--\n"));
    delims.push(chars_of("-- \n"));
    delims.push(chars_of("---\n"));
    delims.push(chars_of("Best regards"));
    delims.push(chars_of("Kind regards"));
    delims.push(chars_of("Regards,"));
    assert(texts(delims@) =~= delimiters());
    let mut k: usize = 0;
    while k < delims.len()
        invariant
            k <= delims.len(),
            v@ == text@,
            texts(delims@) == delimiters(),
            signature_start(text@) == signature_start_from(text@, delimiters(), k as int),
        decreases delims.len() - k,
    {
        assert(texts(delims@)[k as int] == delims@[k as int]@);
        match find_in(&v, &delims[k]) {
            Some(pos) => {
                proof {
                    lemma_find(v@, delims@[k as int]@);
                    assert(v@.subrange(0, pos as int) =~= v@.take(pos as int));
                    assert(v@.subrange(pos as int, v@.len() as int) =~= v@.skip(pos as int));
                }
                let signature = trimmed(&subvec(&v, pos, v.len()));
                if signature.len() > 0 {
                    let content = trimmed(&subvec(&v, 0, pos));
                    return (
                        text_of(&content),
                        Some(text_of(&signature)),
                    );
                }
            },
            None => {},
        }
        k += 1;
    }
    (text.to_owned(), None)
}

impl Body {
    /// The best available text of this body.
    pub open spec fn best(&self) -> Seq<char> {
        best_of(self.text@, opt_text(self.text_from_html))
    }

    /// The derived fields agree with the text and the HTML: the text taken
    /// from the HTML is there exactly when there is HTML and no plain text,
    /// the counts are those of the best text, and content and signature are
    /// the two parts of the best text.
    pub open spec fn wf(&self) -> bool {
        &&& opt_text(self.text_from_html) == if self.text@.len() == 0 {
            match self.html {
                Some(h) => Some(html_text(h@)),
                None => None,
            }
        } else {
            None
        }
        &&& self.word_count == split_whitespace(self.best()).len()
        &&& self.char_count == encode_utf8(self.best()).len()
        &&& self.line_count == line_count(self.best())
        &&& self.content_without_signature@ == content_of(self.best())
        &&& opt_text(self.signature) == signature_of(self.best())
    }

    /// Whether the body has neither text other than white space nor HTML.
    pub fn is_empty(&self) -> (b: bool)
        ensures
            b == (trim(self.text@).len() == 0 && self.html is None),
    {
        let t = trimmed(&chars_of(self.text.as_str()));
        t.len() == 0 && self.html.is_none()
    }

    /// The best available text content.
    pub fn best_text(&self) -> (r: &str)
        ensures
            r@ == self.best(),
    {
        if !self.text.as_str().is_empty() {
            self.text.as_str()
        } else {
            match &self.text_from_html {
                Some(t) => t.as_str(),
                None => {
                    proof {
                        reveal_strlit("");
                    }
                    ""
                },
            }
        }
    }
}

} // verus!
