use email_extract::{separate_signature, strip_html};

#[test]
fn signature_after_the_dash_line() {
    let (content, signature) = separate_signature("Hello there.\n\n--\nJohn Doe\nAcme Corp");
    assert_eq!(content, "Hello there.");
    let signature = signature.unwrap();
    assert!(signature.starts_with("--"));
    assert_eq!(signature, "--\nJohn Doe\nAcme Corp");
}

#[test]
fn delimiters_go_by_priority_not_by_place() {
    let (content, signature) = separate_signature("Best regards, A\nmore text\n--\nB");
    assert_eq!(content, "Best regards, A\nmore text");
    assert_eq!(signature.as_deref(), Some("--\nB"));
    let (content, signature) = separate_signature("x\nRegards,\nKind regards\ny");
    assert_eq!(content, "x\nRegards,");
    assert_eq!(signature.as_deref(), Some("Kind regards\ny"));
}

#[test]
fn each_delimiter_separates() {
    for d in ["--\n", "-- \n", "Best regards", "Kind regards", "Regards,"] {
        let text = format!("body\n{d}end");
        let (content, signature) = separate_signature(&text);
        assert_eq!(content, "body", "{d:?}");
        assert_eq!(signature.unwrap(), format!("{d}end").trim(), "{d:?}");
    }
    let (content, signature) = separate_signature("body\n---\nend");
    assert_eq!(content, "body\n-");
    assert_eq!(signature.as_deref(), Some("--\nend"));
    let (content, signature) = separate_signature("body\n---");
    assert_eq!(content, "body\n---");
    assert!(signature.is_none());
}

#[test]
fn text_without_delimiter_is_all_content() {
    let (content, signature) = separate_signature("  plain text, regards \n");
    assert_eq!(content, "  plain text, regards \n");
    assert!(signature.is_none());
    let (content, signature) = separate_signature("");
    assert_eq!(content, "");
    assert!(signature.is_none());
}

#[test]
fn delimiter_at_the_start_leaves_no_content() {
    let (content, signature) = separate_signature("  \n--\nonly signature  ");
    assert_eq!(content, "");
    assert_eq!(signature.as_deref(), Some("--\nonly signature"));
}

#[test]
fn content_gap_and_signature_make_the_trimmed_text() {
    for text in [
        "Hello there.\n\n--\nJohn Doe\nAcme Corp",
        "  lead\t\n---\nsig \n ",
        "--\nx",
        "a--\nb",
        "aBest regardsb",
        "no signature here ",
        " \u{a0}Kind regards\u{2003}",
    ] {
        let (content, signature) = separate_signature(text);
        match signature {
            Some(sig) => {
                let trimmed = text.trim();
                assert!(trimmed.starts_with(content.as_str()), "{text:?}");
                assert!(trimmed.ends_with(sig.as_str()), "{text:?}");
                let gap = &trimmed[content.len()..trimmed.len() - sig.len()];
                assert!(gap.chars().all(char::is_whitespace), "{text:?}");
                if gap.is_empty() {
                    assert_eq!(format!("{content}{sig}").trim(), trimmed);
                }
            }
            None => assert_eq!(content, text),
        }
    }
}

#[test]
fn round_trip_without_gap() {
    let (content, signature) = separate_signature("Thanks.Best regards, Ann");
    assert_eq!(format!("{}{}", content, signature.unwrap()), "Thanks.Best regards, Ann");
}

#[test]
fn tags_go_and_blocks_break_lines() {
    assert_eq!(strip_html("<html><body><h1>Hello</h1><p>World</p></body></html>"), "Hello\nWorld");
    assert_eq!(strip_html("a<br>b<BR/>c"), "a\nb\nc");
    assert_eq!(strip_html("<ul><li>one</li><LI>two</Li></ul>"), "one\ntwo");
    assert_eq!(strip_html("<div>x</div><span>y</span>z"), "x\nyz");
    assert_eq!(strip_html("<p>no break at open<p>tag"), "no break at opentag");
    assert_eq!(strip_html("x<broken>y"), "x\ny");
}

#[test]
fn script_and_style_are_dropped() {
    assert_eq!(strip_html("a<script>var x = 1;</script>b"), "ab");
    assert_eq!(strip_html("a<STYLE type=\"t\">p { }</Style>b"), "ab");
    assert_eq!(strip_html("a<script>x<br>y</script>b"), "a\nb");
    assert_eq!(strip_html("a<script>never closed"), "a");
    assert_eq!(strip_html("a<scripty>gone</scripty>b"), "ab");
}

#[test]
fn entities_are_decoded_in_order() {
    assert_eq!(strip_html("a&nbsp;b &amp; c &lt;d&gt; &quot;e&quot; &#39;f&#39;"), "a b & c <d> \"e\" 'f'");
    assert_eq!(strip_html("&amp;lt;"), "<");
    assert_eq!(strip_html("&lt;b&gt;"), "<b>");
    assert_eq!(strip_html("&euro; &#8364; &AMP;"), "&euro; &#8364; &AMP;");
    assert_eq!(strip_html("&amp;amp;"), "&amp;");
}

#[test]
fn lines_are_trimmed_and_empty_ones_dropped() {
    assert_eq!(strip_html("  a  \n\n \t \n  b\r\n<br><br>c  "), "a\nb\nc");
    assert_eq!(strip_html(""), "");
    assert_eq!(strip_html("   \n  "), "");
    assert_eq!(strip_html("<p></p>"), "");
    assert_eq!(strip_html("&nbsp;x&nbsp;"), "x");
}

#[test]
fn unclosed_and_stray_brackets() {
    assert_eq!(strip_html("a < b"), "a");
    assert_eq!(strip_html("a > b"), "a > b");
    assert_eq!(strip_html("x<a href=\"<\">y"), "xy");
    assert_eq!(strip_html("Grüße<br>日本語 text"), "Grüße\n日本語 text");
}
