//! Conversion of an HTML payload into plain, whitespace-normalised text.

use crate::text::{
    chars_of, has_prefix_ignore_case, replace, replace_all, split, split_on,
    starts_with_ignore_case, text_of, texts, trim, trim_bounds,
};
use vstd::prelude::*;
use vstd::string::*;

verus! {

/// What the scanner remembers between two characters.
pub struct ScanState {
    /// Inside `<...>`.
    pub in_tag: bool,
    /// Inside a `<script>` block.
    pub in_script: bool,
    /// Inside a `<style>` block.
    pub in_style: bool,
    /// Index of the `<` that opened the current tag.
    pub tag_start: int,
}

/// The state in which a scan begins: outside any tag and block.
pub open spec fn initial_state() -> ScanState {
    ScanState { in_tag: false, in_script: false, in_style: false, tag_start: 0 }
}

/// The tag whose inner text is `inner` ends a line in the output.
pub open spec fn is_line_break_tag(inner: Seq<char>) -> bool {
    ||| starts_with_ignore_case(inner, "br"@)
    ||| starts_with_ignore_case(inner, "/p"@)
    ||| starts_with_ignore_case(inner, "/div"@)
    ||| starts_with_ignore_case(inner, "/li"@)
    ||| starts_with_ignore_case(inner, "/h"@)
}

/// The state after the character at index `i` was read in state `st`.
pub open spec fn next_state(s: Seq<char>, i: int, st: ScanState) -> ScanState {
    let rest = s.subrange(i, s.len() as int);
    if !st.in_tag && s[i] == '<' {
        if starts_with_ignore_case(rest, "<script"@) {
            ScanState { in_tag: true, in_script: true, tag_start: i, ..st }
        } else if starts_with_ignore_case(rest, "<style"@) {
            ScanState { in_tag: true, in_style: true, tag_start: i, ..st }
        } else if starts_with_ignore_case(rest, "</script"@) {
            ScanState { in_tag: true, in_script: false, tag_start: i, ..st }
        } else if starts_with_ignore_case(rest, "</style"@) {
            ScanState { in_tag: true, in_style: false, tag_start: i, ..st }
        } else {
            ScanState { in_tag: true, tag_start: i, ..st }
        }
    } else if st.in_tag && s[i] == '>' {
        ScanState { in_tag: false, ..st }
    } else {
        st
    }
}

/// What reading the character at index `i` in state `st` adds to the output.
pub open spec fn emitted(s: Seq<char>, i: int, st: ScanState) -> Seq<char> {
    if !st.in_tag && s[i] == '<' {
        Seq::empty()
    } else if st.in_tag && s[i] == '>' {
        if is_line_break_tag(s.subrange(st.tag_start + 1, i)) {
            seq!['\n']
        } else {
            Seq::empty()
        }
    } else if !st.in_tag && !st.in_script && !st.in_style {
        seq![s[i]]
    } else {
        Seq::empty()
    }
}

/// The state is one that a scan of `s` can be in before index `i`.
pub open spec fn state_ok(st: ScanState, i: int) -> bool {
    st.in_tag ==> 0 <= st.tag_start < i
}

/// The output of the scan of `s` from index `i` on, begun in state `st`.
pub open spec fn scan_from(s: Seq<char>, i: int, st: ScanState) -> Seq<char>
    decreases s.len() - i,
{
    if i < 0 || i >= s.len() {
        Seq::empty()
    } else {
        emitted(s, i, st) + scan_from(s, i + 1, next_state(s, i, st))
    }
}

/// The text left of an HTML payload once tags and the contents of
/// `<script>` and `<style>` blocks are gone.
pub open spec fn without_tags(s: Seq<char>) -> Seq<char> {
    scan_from(s, 0, initial_state())
}

/// The named entities `&nbsp;`, `&amp;`, `&lt;`, `&gt;`, `&quot;` and
/// `&#39;`, decoded one after the other in this order.
pub open spec fn decode_entities(s: Seq<char>) -> Seq<char> {
    replace(
        replace(
            replace(
                replace(replace(replace(s, "&nbsp;"@, " "@), "&amp;"@, "&"@), "&lt;"@, "<"@),
                "&gt;"@,
                ">"@,
            ),
            "&quot;"@,
            "\""@,
        ),
        "&#39;"@,
        "'"@,
    )
}

/// The lines of `lines`, each trimmed, without those that are then empty.
pub open spec fn clean_lines(lines: Seq<Seq<char>>) -> Seq<Seq<char>>
    decreases lines.len(),
{
    if lines.len() == 0 {
        Seq::empty()
    } else {
        let before = clean_lines(lines.drop_last());
        let line = trim(lines.last());
        if line.len() > 0 {
            before.push(line)
        } else {
            before
        }
    }
}

/// The lines joined by a newline between each two.
pub open spec fn join_lines(lines: Seq<Seq<char>>) -> Seq<char>
    decreases lines.len(),
{
    if lines.len() == 0 {
        Seq::empty()
    } else if lines.len() == 1 {
        lines[0]
    } else {
        join_lines(lines.drop_last()) + seq!['\n'] + lines.last()
    }
}

/// The plain text of an HTML payload.
pub open spec fn html_text(html: Seq<char>) -> Seq<char> {
    join_lines(clean_lines(split(decode_entities(without_tags(html)), '\n')))
}

fn strip_tags(v: &Vec<char>) -> (r: Vec<char>)
    ensures
        r@ == without_tags(v@),
{
    let script_open = chars_of("<script");
    let style_open = chars_of("<style");
    let script_close = chars_of("</script");
    let style_close = chars_of("</style");
    let br = chars_of("br");
    let p_close = chars_of("/p");
    let div_close = chars_of("/div");
    let li_close = chars_of("/li");
    let h_close = chars_of("/h");
    let mut r: Vec<char> = Vec::new();
    let mut in_tag = false;
    let mut in_script = false;
    let mut in_style = false;
    let mut tag_start: usize = 0;
    let ghost mut st = initial_state();
    let mut i: usize = 0;
    while i < v.len()
        invariant
            i <= v.len(),
            st == (ScanState { in_tag, in_script, in_style, tag_start: tag_start as int }),
            state_ok(st, i as int),
            without_tags(v@) == r@ + scan_from(v@, i as int, st),
            script_open@ == "<script"@,
            style_open@ == "<style"@,
            script_close@ == "</script"@,
            style_close@ == "</style"@,
            br@ == "br"@,
            p_close@ == "/p"@,
            div_close@ == "/div"@,
            li_close@ == "/li"@,
            h_close@ == "/h"@,
        decreases v.len() - i,
    {
        let ghost before = r@;
        let ghost out = emitted(v@, i as int, st);
        let ghost next = next_state(v@, i as int, st);
        let c = v[i];
        if !in_tag && c == '<' {
            tag_start = i;
            if has_prefix_ignore_case(v, i, v.len(), &script_open) {
                in_script = true;
            } else if has_prefix_ignore_case(v, i, v.len(), &style_open) {
                in_style = true;
            } else if has_prefix_ignore_case(v, i, v.len(), &script_close) {
                in_script = false;
            } else if has_prefix_ignore_case(v, i, v.len(), &style_close) {
                in_style = false;
            }
            in_tag = true;
        } else if in_tag && c == '>' {
            in_tag = false;
            let a = tag_start + 1;
            if has_prefix_ignore_case(v, a, i, &br) || has_prefix_ignore_case(v, a, i, &p_close)
                || has_prefix_ignore_case(v, a, i, &div_close) || has_prefix_ignore_case(
                v,
                a,
                i,
                &li_close,
            ) || has_prefix_ignore_case(v, a, i, &h_close) {
                r.push('\n');
            }
        } else if !in_tag && !in_script && !in_style {
            r.push(c);
        }
        proof {
            st = next;
            assert(r@ =~= before + out);
            assert((before + out) + scan_from(v@, i + 1, next) =~= before + (out + scan_from(
                v@,
                i + 1,
                next,
            )));
        }
        i += 1;
    }
    proof {
        assert(r@ + scan_from(v@, i as int, st) =~= r@);
    }
    r
}

fn decode(v: &Vec<char>) -> (r: Vec<char>)
    ensures
        r@ == decode_entities(v@),
{
    let r = replace_all(v, &chars_of("&nbsp;"), &chars_of(" "));
    let r = replace_all(&r, &chars_of("&amp;"), &chars_of("&"));
    let r = replace_all(&r, &chars_of("&lt;"), &chars_of("<"));
    let r = replace_all(&r, &chars_of("&gt;"), &chars_of(">"));
    let r = replace_all(&r, &chars_of("&quot;"), &chars_of("\""));
    replace_all(&r, &chars_of("&#39;"), &chars_of("'"))
}

/// Joins the trimmed, non-empty lines of `lines` with newlines.
fn join_clean(lines: &Vec<Vec<char>>) -> (r: Vec<char>)
    ensures
        r@ == join_lines(clean_lines(texts(lines@))),
{
    let mut r: Vec<char> = Vec::new();
    let mut first = true;
    let ghost mut kept: Seq<Seq<char>> = Seq::empty();
    let mut i: usize = 0;
    proof {
        assert(texts(lines@).take(0) =~= Seq::<Seq<char>>::empty());
    }
    while i < lines.len()
        invariant
            i <= lines.len(),
            kept == clean_lines(texts(lines@).take(i as int)),
            r@ == join_lines(kept),
            first == (kept.len() == 0),
        decreases lines.len() - i,
    {
        let (a, b) = trim_bounds(&lines[i], 0, lines[i].len());
        let ghost line = trim(lines@[i as int]@);
        proof {
            let all = texts(lines@);
            assert(lines@[i as int]@.subrange(0, lines@[i as int]@.len() as int)
                =~= lines@[i as int]@);
            assert(all.take(i + 1).drop_last() =~= all.take(i as int));
            assert(all.take(i + 1).last() == lines@[i as int]@);
        }
        if b > a {
            if !first {
                r.push('\n');
            }
            let ghost start = r@;
            let mut k: usize = a;
            while k < b
                invariant
                    a <= k <= b <= lines@[i as int]@.len(),
                    i < lines.len(),
                    r@ == start + lines@[i as int]@.subrange(a as int, k as int),
                decreases b - k,
            {
                r.push(lines[i][k]);
                assert(start + lines@[i as int]@.subrange(a as int, k + 1) =~= (start
                    + lines@[i as int]@.subrange(a as int, k as int)).push(
                    lines@[i as int]@[k as int],
                ));
                k += 1;
            }
            proof {
                let next = kept.push(line);
                assert(next.drop_last() =~= kept);
                if kept.len() == 0 {
                    assert(r@ =~= line);
                } else {
                    assert(r@ =~= join_lines(kept) + seq!['\n'] + line);
                }
                kept = next;
            }
            first = false;
        }
        i += 1;
    }
    proof {
        assert(texts(lines@).take(lines@.len() as int) =~= texts(lines@));
    }
    r
}

/// Converts an HTML payload into plain text: tags and the contents of
/// `<script>` and `<style>` blocks are dropped, a line break is put where a
/// `<br>` or a closing `</p>`, `</div>`, `</li>` or `</h..>` tag stood, six
/// named entities are decoded, and the lines are trimmed, the empty ones
/// dropped.
pub fn strip_html(html: &str) -> (r: String)
    ensures
        r@ == html_text(html@),
{
    let v = chars_of(html);
    let plain = decode(&strip_tags(&v));
    let lines = split_on(&plain, '\n');
    let joined = join_clean(&lines);
    text_of(&joined)
}

} // verus!
