use email_extract::headers::{find_header, get_header, parse_authentication_results, parse_headers};
use email_extract::metadata::{assess, count_tracking, detect_sentiment};
use email_extract::parser::{
    extract_addresses, extract_body, extract_body_parts, extract_date, extract_from,
    extract_message_id, extract_reply_to, extract_subject, extract_thread_info, resolve_date,
};
use email_extract::{
    analyze_metadata, parse_email, parse_message, AuthResult, MimeMessage, MimePart, ParseError,
    Priority, Sentiment, Subject, Timestamp, Urgency,
};

fn fields(pairs: &[(&str, &str)]) -> Vec<(String, String)> {
    pairs.iter().map(|(k, v)| (k.to_string(), v.to_string())).collect()
}

fn leaf(mimetype: &str, body: Option<&str>) -> MimePart {
    MimePart { mimetype: mimetype.to_string(), body: body.map(str::to_string), children: 0 }
}

fn node(mimetype: &str, children: usize) -> MimePart {
    MimePart { mimetype: mimetype.to_string(), body: Some(String::new()), children }
}

const NOW: Timestamp = Timestamp { seconds: 1_700_000_000, nanos: 5 };

#[test]
fn header_lookup_ignores_case_and_takes_the_first() {
    let h = fields(&[("Subject", "one"), ("SUBJECT", "two"), ("X-Mailer", "m")]);
    assert_eq!(get_header(&h, "subject").as_deref(), Some("one"));
    assert_eq!(get_header(&h, "Subject"), None);
    assert_eq!(get_header(&h, "date"), None);
    assert_eq!(find_header(&h, "user-agent", "x-mailer"), Some(2));
    assert_eq!(find_header(&h, "subject", "x-mailer"), Some(0));
    assert_eq!(find_header(&h, "a", "b"), None);
    assert_eq!(get_header(&Vec::new(), "subject"), None);
}

#[test]
fn headers_are_read_off_the_fields() {
    let h = fields(&[
        ("Content-Type", "text/plain"),
        ("User-Agent", "agent"),
        ("X-Mailer", "mailer"),
        ("X-Priority", " 2 "),
        ("List-Unsubscribe", "<mailto:u@x.org>"),
        ("x-custom", "c"),
        ("Authentication-Results", "mx; SPF=pass; dkim=fail"),
        ("Ünï", "v"),
    ]);
    let r = parse_headers(&h).unwrap();
    assert_eq!(r.all.len(), 8);
    assert_eq!(r.all[0], ("content-type".to_string(), "text/plain".to_string()));
    assert_eq!(r.all[7].0, "ünï");
    assert_eq!(r.content_type.as_deref(), Some("text/plain"));
    assert_eq!(r.mailer.as_deref(), Some("agent"));
    assert_eq!(r.priority, Some(Priority::High));
    assert_eq!(r.list_unsubscribe.as_deref(), Some("<mailto:u@x.org>"));
    assert_eq!(r.authentication.spf, Some(AuthResult::Pass));
    assert_eq!(r.authentication.dkim, Some(AuthResult::Fail));
    assert_eq!(r.authentication.dmarc, None);
    let custom: Vec<&str> = r.custom.iter().map(|c| c.0.as_str()).collect();
    assert_eq!(custom, ["X-Mailer", "X-Priority", "x-custom"]);
    let r = parse_headers(&Vec::new()).unwrap();
    assert!(r.all.is_empty() && r.custom.is_empty());
    assert!(r.content_type.is_none() && r.mailer.is_none() && r.priority.is_none());
}

#[test]
fn later_authentication_results_override_earlier() {
    let h = fields(&[
        ("Authentication-Results", "spf=pass dmarc=pass"),
        ("Other", "spf=fail"),
        ("authentication-results", "spf=fail"),
        ("AUTHENTICATION-RESULTS", "dkim=pass spf=none"),
    ]);
    let r = parse_authentication_results(&h);
    assert_eq!(r.spf, Some(AuthResult::Fail));
    assert_eq!(r.dkim, Some(AuthResult::Pass));
    assert_eq!(r.dmarc, Some(AuthResult::Pass));
    let h = fields(&[("Authentication-Results", "spf=fail spf=pass")]);
    assert_eq!(parse_authentication_results(&h).spf, Some(AuthResult::Pass));
}

#[test]
fn message_id_or_a_synthetic_one() {
    let h = fields(&[("Message-ID", "<m@x>")]);
    assert_eq!(extract_message_id(&h, 7).as_str(), "<m@x>");
    assert_eq!(extract_message_id(&Vec::new(), 7).as_str(), "<synthetic-7@local>");
    assert_eq!(extract_message_id(&Vec::new(), 0).as_str(), "<synthetic-0@local>");
    assert_eq!(extract_message_id(&Vec::new(), 10).as_str(), "<synthetic-10@local>");
    assert_eq!(extract_message_id(&Vec::new(), u32::MAX).as_str(), "<synthetic-4294967295@local>");
}

#[test]
fn missing_sender() {
    let err = extract_from(&fields(&[("To", "a@b")])).unwrap_err();
    assert_eq!(err, ParseError::MissingHeader("From".to_string()));
    assert_eq!(err.to_string(), "Missing required header: From");
}

#[test]
fn sender_without_address() {
    let err = extract_from(&fields(&[("From", "nobody")])).unwrap_err();
    assert_eq!(
        err,
        ParseError::InvalidHeader { header: "From".to_string(), details: "Could not parse: nobody".to_string() }
    );
    assert_eq!(err.to_string(), "Invalid header format for From: Could not parse: nobody");
}

#[test]
fn error_messages() {
    assert_eq!(ParseError::Structure("s".into()).to_string(), "Failed to parse email structure: s");
    assert_eq!(ParseError::Decode("d".into()).to_string(), "Failed to decode content: d");
    assert_eq!(ParseError::InvalidDate("x".into()).to_string(), "Invalid date format: x");
}

#[test]
fn recipients_that_fail_are_dropped() {
    let h = fields(&[("To", "a@b.c, nobody, \"N M\" <n@m.o>,, <x>"), ("Cc", "")]);
    let to = extract_addresses(&h, "to");
    assert_eq!(to.len(), 2);
    assert_eq!(to[0].address, "a@b.c");
    assert_eq!(to[1].address, "n@m.o");
    assert_eq!(to[1].name.as_ref().unwrap().last.as_deref(), Some("M"));
    assert!(extract_addresses(&h, "cc").is_empty());
    assert!(extract_addresses(&h, "bcc").is_empty());
}

#[test]
fn reply_to() {
    assert_eq!(extract_reply_to(&fields(&[("Reply-To", "r@s.t")])).unwrap().address, "r@s.t");
    assert!(extract_reply_to(&fields(&[("Reply-To", "none")])).is_none());
    assert!(extract_reply_to(&Vec::new()).is_none());
}

#[test]
fn subject_or_placeholder() {
    let s = extract_subject(&fields(&[("subject", "Re: hi")]));
    assert_eq!(s.normalized, "hi");
    let s = extract_subject(&Vec::new());
    assert_eq!(s.original, "(no subject)");
    assert_eq!(s.normalized, "(no subject)");
}

#[test]
fn date_read_or_now() {
    let h = fields(&[("Date", "Wed, 18 Feb 2015 23:16:09 GMT")]);
    assert_eq!(extract_date(&h, NOW), Timestamp { seconds: 1_424_301_369, nanos: 0 });
    let h = fields(&[("Date", "Sun, 02 Oct 2016 07:06:22 -0700")]);
    assert_eq!(extract_date(&h, NOW).seconds, 1_475_417_182);
    assert_eq!(extract_date(&fields(&[("Date", "yesterday")]), NOW), NOW);
    assert_eq!(extract_date(&Vec::new(), NOW), NOW);
    assert_eq!(resolve_date(Some((3, 4)), NOW), Timestamp { seconds: 3, nanos: 4 });
    assert_eq!(resolve_date(None, NOW), NOW);
}

#[test]
fn thread_information() {
    let h = fields(&[("In-Reply-To", "<p@x>"), ("References", " <a@x>\t<b@x>\n <p@x> ")]);
    let t = extract_thread_info(&h, &Subject::parse("plain"));
    assert_eq!(t.in_reply_to.unwrap().as_str(), "<p@x>");
    let ids: Vec<&str> = t.references.iter().map(|m| m.as_str()).collect();
    assert_eq!(ids, ["<a@x>", "<b@x>", "<p@x>"]);
    assert!(t.is_reply);
    assert_eq!(t.thread_position, 4);
    let t = extract_thread_info(&fields(&[("References", "<a@x>")]), &Subject::parse("plain"));
    assert!(!t.is_reply);
    assert_eq!(t.thread_position, 0);
    assert_eq!(t.references.len(), 1);
    let t = extract_thread_info(&Vec::new(), &Subject::parse("Re: x"));
    assert!(t.is_reply);
    assert!(t.in_reply_to.is_none());
    assert_eq!(t.thread_position, 1);
}

#[test]
fn single_part_body() {
    let (text, html) = extract_body_parts(&vec![leaf("text/plain", Some("hi"))]);
    assert_eq!((text.as_str(), html), ("hi", None));
    let (text, html) = extract_body_parts(&vec![leaf("Text/HTML", Some("<p>hi</p>"))]);
    assert_eq!((text.as_str(), html.as_deref()), ("", Some("<p>hi</p>")));
    let (text, html) = extract_body_parts(&vec![leaf("application/pdf", Some("raw"))]);
    assert_eq!((text.as_str(), html), ("raw", None));
    let (text, html) = extract_body_parts(&vec![leaf("text/plain", None)]);
    assert_eq!((text.as_str(), html), ("", None));
    let (text, html) = extract_body_parts(&Vec::new());
    assert_eq!((text.as_str(), html), ("", None));
}

#[test]
fn first_parts_found_win() {
    let parts = vec![
        node("multipart/mixed", 3),
        node("multipart/alternative", 3),
        leaf("text/plain", Some("")),
        leaf("text/html", Some("<b>first</b>")),
        leaf("TEXT/PLAIN", Some("first text")),
        leaf("text/plain", Some("second text")),
        leaf("text/html", Some("<b>second</b>")),
    ];
    let (text, html) = extract_body_parts(&parts);
    assert_eq!(text, "first text");
    assert_eq!(html.as_deref(), Some("<b>first</b>"));
    let parts = vec![node("multipart/mixed", 2), leaf("image/png", Some("x")), leaf("text/plain", None)];
    let (text, html) = extract_body_parts(&parts);
    assert_eq!((text.as_str(), html), ("", None));
    let parts = vec![node("multipart/mixed", 1), MimePart { mimetype: "text/plain".into(), body: Some("inner".into()), children: 1 }, leaf("text/html", Some("h"))];
    let (text, html) = extract_body_parts(&parts);
    assert_eq!((text.as_str(), html.as_deref()), ("", Some("h")));
}

#[test]
fn body_of_plain_text() {
    let b = extract_body(&vec![leaf("text/plain", Some("Hello wörld\nsecond line\n\n--\nMe"))]);
    assert_eq!(b.text, "Hello wörld\nsecond line\n\n--\nMe");
    assert!(b.html.is_none() && b.text_from_html.is_none());
    assert_eq!(b.word_count, 6);
    assert_eq!(b.char_count, b.text.len());
    assert_eq!(b.char_count, 31);
    assert_eq!(b.line_count, 5);
    assert_eq!(b.content_without_signature, "Hello wörld\nsecond line");
    assert_eq!(b.signature.as_deref(), Some("--\nMe"));
    assert!(b.language.is_none());
    assert!(!b.has_attachments);
    assert!(!b.is_empty());
}

#[test]
fn body_of_html_only() {
    let b = extract_body(&vec![leaf("text/html", Some("<p>One</p><p>Two words</p>"))]);
    assert_eq!(b.text, "");
    assert_eq!(b.text_from_html.as_deref(), Some("One\nTwo words"));
    assert_eq!(b.best_text(), "One\nTwo words");
    assert_eq!(b.word_count, 3);
    assert_eq!(b.line_count, 2);
    assert_eq!(b.char_count, 13);
    assert_eq!(b.content_without_signature, "One\nTwo words");
    assert!(b.signature.is_none());
    assert!(!b.is_empty());
}

#[test]
fn line_counts() {
    for text in ["", "a", "a\n", "\n", "a\n\n", "a\nb", "a\r\nb\r\n", "\n\n\n", " "] {
        let b = extract_body(&vec![leaf("text/plain", Some(text))]);
        assert_eq!(b.line_count, text.lines().count(), "{text:?}");
        assert_eq!(b.word_count, text.split_whitespace().count(), "{text:?}");
        assert_eq!(b.char_count, text.len(), "{text:?}");
    }
    let b = extract_body(&Vec::new());
    assert!(b.is_empty());
    assert_eq!((b.word_count, b.char_count, b.line_count), (0, 0, 0));
}

#[test]
fn spam_score_adds_the_weights() {
    let m = assess(true, 4, "urgent: act now", None, false, false, false, false, "");
    assert_eq!(m.spam_score, 45);
    let names: Vec<(&str, u32)> = m.spam_indicators.iter().map(|i| (i.indicator.as_str(), i.weight)).collect();
    assert_eq!(names, [("noreply_sender", 10), ("excessive_tracking", 20), ("urgency_language", 15)]);
    assert_eq!(m.spam_score, m.spam_indicators.iter().map(|i| i.weight).sum::<u32>());
    let m = assess(false, 3, "hello", None, false, false, false, false, "");
    assert_eq!(m.spam_score, 0);
    assert!(m.spam_indicators.is_empty());
    let m = assess(false, 4, "limited time", None, false, false, false, false, "");
    assert_eq!(m.spam_score, 35);
    let m = assess(false, 0, "asap", None, false, false, false, false, "");
    assert_eq!(m.spam_score, 0);
}

#[test]
fn urgency() {
    for subject in ["urgent", "need asap", "an emergency"] {
        assert_eq!(assess(false, 0, subject, None, false, false, false, false, "").urgency, Urgency::High);
    }
    assert_eq!(assess(false, 0, "", Some(Priority::High), false, false, false, false, "").urgency, Urgency::High);
    assert_eq!(assess(false, 0, "", Some(Priority::Highest), false, false, false, false, "").urgency, Urgency::High);
    assert_eq!(assess(false, 0, "", Some(Priority::Normal), false, false, false, false, "").urgency, Urgency::Normal);
    assert_eq!(assess(false, 0, "act now", Some(Priority::Low), false, false, false, false, "").urgency, Urgency::Normal);
    assert_eq!(assess(false, 0, "URGENT", None, false, false, false, false, "").urgency, Urgency::Normal);
}

#[test]
fn category_hints_and_flags() {
    let m = assess(true, 0, "", None, true, false, true, true, "");
    let hints: Vec<(&str, u32, &str)> =
        m.category_hints.iter().map(|h| (h.category.as_str(), h.confidence, h.reason.as_str())).collect();
    assert_eq!(
        hints,
        [
            ("newsletter", 90, "Has List-Unsubscribe header"),
            ("automated", 80, "From noreply address"),
            ("lead", 60, "Contains contact information"),
        ]
    );
    assert!(m.is_automated && m.is_mailing_list);
    let m = assess(false, 0, "", None, false, true, true, false, "");
    assert!(m.category_hints.is_empty());
    assert!(m.is_automated && !m.is_mailing_list);
    let m = assess(false, 0, "", None, false, false, false, true, "");
    assert!(m.category_hints.is_empty());
    assert!(!m.is_automated);
}

#[test]
fn sentiment_positive_first() {
    assert_eq!(detect_sentiment("thanks for the problem"), Sentiment::Positive);
    assert_eq!(detect_sentiment("a complaint"), Sentiment::Negative);
    assert_eq!(detect_sentiment("i am frustrated and disappointed"), Sentiment::Negative);
    assert_eq!(detect_sentiment("excellent"), Sentiment::Positive);
    assert_eq!(detect_sentiment("we appreciate it"), Sentiment::Positive);
    assert_eq!(detect_sentiment("great"), Sentiment::Positive);
    assert_eq!(detect_sentiment("nothing to see"), Sentiment::Neutral);
    assert_eq!(detect_sentiment(""), Sentiment::Neutral);
    assert_eq!(detect_sentiment("THANK"), Sentiment::Neutral);
}

fn message(pairs: &[(&str, &str)], text: &str) -> MimeMessage {
    MimeMessage { headers: fields(pairs), parts: vec![leaf("text/plain", Some(text))] }
}

#[test]
fn metadata_of_a_message() {
    let text = "THANK you! https://a.b/track https://a.b/click https://a.b/trk https://a.b/utm_x https://a.b/ok";
    let m = message(&[("From", "No-Reply@shop.example"), ("Subject", "URGENT offer"), ("List-Unsubscribe", "<u>")], text);
    let e = parse_message(3, &m, NOW).unwrap();
    assert_eq!(count_tracking(&e.extracted.urls), 4);
    assert_eq!(e.metadata.spam_score, 45);
    assert_eq!(e.metadata.urgency, Urgency::High);
    assert_eq!(e.metadata.sentiment, Sentiment::Positive);
    assert!(e.metadata.is_automated && e.metadata.is_mailing_list);
    assert_eq!(e.metadata.category_hints.len(), 2);
    let again = analyze_metadata(&e.from, &e.headers, &e.subject, &e.body, &e.extracted);
    assert_eq!(again.spam_score, 45);
    assert_eq!(again.spam_indicators.len(), 3);
}

#[test]
fn message_is_parsed_field_by_field() {
    let m = message(
        &[
            ("From", "Ann Lee <ann@gmail.com>"),
            ("To", "b@c.d, e@f.g"),
            ("Cc", "h@i.j"),
            ("Reply-To", "r@s.t"),
            ("Subject", "Re: Fwd: plan"),
            ("Date", "Wed, 18 Feb 2015 23:16:09 GMT"),
            ("References", "<a@x> <b@x>"),
        ],
        "call 555-123-4567",
    );
    let e = parse_message(9, &m, NOW).unwrap();
    assert_eq!(e.uid, 9);
    assert_eq!(e.message_id.as_str(), "<synthetic-9@local>");
    assert_eq!(e.from.address, "ann@gmail.com");
    assert!(e.from.is_freemail());
    assert_eq!(e.to.len(), 2);
    assert_eq!(e.cc.len(), 1);
    assert!(e.bcc.is_empty());
    assert_eq!(e.reply_to.unwrap().address, "r@s.t");
    assert_eq!(e.subject.reply_depth, 1);
    assert!(e.subject.is_forward);
    assert_eq!(e.subject.normalized, "plan");
    assert_eq!(e.date, Timestamp { seconds: 1_424_301_369, nanos: 0 });
    assert!(e.thread.is_reply);
    assert_eq!(e.thread.thread_position, 3);
    assert_eq!(e.body.text, "call 555-123-4567");
    assert_eq!(e.extracted.phone_numbers.len(), 1);
    assert_eq!(e.headers.all.len(), 7);
    assert_eq!(e.metadata.spam_score, 0);
    assert_eq!(e.metadata.sentiment, Sentiment::Neutral);
}

#[test]
fn message_without_sender_is_refused() {
    let err = parse_message(1, &message(&[("Subject", "x")], "t"), NOW).unwrap_err();
    assert_eq!(err, ParseError::MissingHeader("From".into()));
    let err = parse_message(1, &message(&[("From", "<>")], "t"), NOW).unwrap_err();
    assert_eq!(err, ParseError::InvalidHeader { header: "From".into(), details: "Could not parse: <>".into() });
    let err = parse_email(1, b"Subject: no sender\r\n\r\nbody").unwrap_err();
    assert_eq!(err, ParseError::MissingHeader("From".into()));
}

#[test]
fn raw_message_with_parts() {
    let raw = [
        "From: Sender <s@example.com>",
        "Subject: =?utf-8?Q?Caf=C3=A9?=",
        "Date: Sun, 02 Oct 2016 07:06:22 -0700 (PDT)",
        "Content-Type: multipart/alternative; boundary=foobar",
        "",
        "--foobar",
        "Content-Type: text/plain; charset=utf-8",
        "Content-Transfer-Encoding: quoted-printable",
        "",
        "Proof by Euro: =E2=82=AC5",
        "--foobar",
        "Content-Type: text/html",
        "",
        "<p>Proof</p>",
        "--foobar--",
        "",
    ]
    .join("\r\n");
    let e = parse_email(5, raw.as_bytes()).unwrap();
    assert_eq!(e.subject.original, "Café");
    assert_eq!(e.date, Timestamp { seconds: 1_475_417_182, nanos: 0 });
    assert_eq!(e.body.text.trim_end(), "Proof by Euro: €5");
    assert_eq!(e.body.html.as_deref().map(str::trim_end), Some("<p>Proof</p>"));
    assert!(e.body.text_from_html.is_none());
    assert_eq!(e.extracted.amounts.len(), 1);
    assert_eq!(e.extracted.amounts[0].currency, "EUR");
    assert_eq!(e.headers.content_type.as_deref(), Some("multipart/alternative; boundary=foobar"));
}

#[test]
fn message_without_date_gets_the_time_of_the_call() {
    let e = parse_email(1, b"From: a@b.c\r\n\r\nx").unwrap();
    assert!(e.date.seconds > 1_600_000_000);
    assert!(e.date.nanos < 2_000_000_000);
    assert_eq!(e.subject.original, "(no subject)");
    assert_eq!(e.message_id.as_str(), "<synthetic-1@local>");
}

#[test]
fn message_with_broken_structure_is_refused() {
    let err = parse_email(1, b" overhanging: line\r\n\r\nbody").unwrap_err();
    match &err {
        ParseError::Structure(words) => assert!(words.starts_with("Header cannot start with a space")),
        other => panic!("unexpected error {other:?}"),
    }
    assert!(err.to_string().starts_with("Failed to parse email structure: Header cannot"));
    assert_eq!(parse_email(1, b"").unwrap_err(), ParseError::MissingHeader("From".into()));
}
