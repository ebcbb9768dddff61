use email_extract::classify::{classify_url, detect_currency, is_tracking_lower, numeral_of};
use email_extract::extracted::{email_from, phone_from, url_from};
use email_extract::{
    detect_phone_type, detect_url_type, extract_domain, is_tracking_url, normalize_phone,
    parse_amount, snap_to_char_boundary, snap_to_next_char_boundary, ExtractedEntities, PhoneType, SocialPlatform, UrlType,
};

#[test]
fn two_amounts_first_in_dollars() {
    let e = ExtractedEntities::extract("The price is $1,500.00 or €2000");
    assert_eq!(e.amounts.len(), 2);
    assert_eq!(e.amounts[0].raw, "$1,500.00");
    assert_eq!(e.amounts[0].value, "1500.00");
    assert_eq!(e.amounts[0].value.parse::<f64>().unwrap(), 1500.0);
    assert_eq!(e.amounts[0].currency, "USD");
    assert_eq!(e.amounts[1].raw, "€2000");
    assert_eq!(e.amounts[1].value, "2000");
    assert_eq!(e.amounts[1].currency, "EUR");
}

#[test]
fn unsubscribe_wins_over_tracking() {
    assert_eq!(
        detect_url_type("https://example.com/track/unsubscribe?utm_source=x", "example.com"),
        UrlType::Unsubscribe
    );
    assert_eq!(classify_url("https://click.example.com/optout", "click.example.com"), UrlType::Unsubscribe);
    assert!(is_tracking_url("https://example.com/track/unsubscribe"));
}

#[test]
fn url_types_in_the_order_of_their_priority() {
    assert_eq!(detect_url_type("https://twitter.com/click", "twitter.com"), UrlType::Tracking);
    assert_eq!(detect_url_type("https://facebook.com/calendar.pdf", "facebook.com"), UrlType::SocialMedia);
    assert_eq!(detect_url_type("https://example.com/calendar/a.pdf", "example.com"), UrlType::Calendar);
    assert_eq!(detect_url_type("https://example.com/invite.ics", "example.com"), UrlType::Calendar);
    assert_eq!(detect_url_type("https://example.com/a.PDF", "example.com"), UrlType::Document);
    assert_eq!(detect_url_type("https://example.com/a.docx", "example.com"), UrlType::Document);
    assert_eq!(detect_url_type("https://example.com/a.xls", "example.com"), UrlType::Document);
    assert_eq!(detect_url_type("https://example.com/a.pdf?x=1", "example.com"), UrlType::Website);
    assert_eq!(detect_url_type("https://example.com/", "INSTAGRAM.com"), UrlType::SocialMedia);
    assert_eq!(detect_url_type("https://example.com/", "example.com"), UrlType::Website);
}

#[test]
fn tracking_markers() {
    for marker in ["track", "click", "redirect", "utm_", "mc_eid", "trk"] {
        assert!(is_tracking_lower(&format!("https://e.com/{marker}")), "{marker}");
        assert!(is_tracking_url(&format!("https://e.com/{}", marker.to_uppercase())), "{marker}");
    }
    assert!(!is_tracking_lower("https://e.com/about"));
    assert!(!is_tracking_lower("https://e.com/TRACK"));
    assert!(is_tracking_url("https://e.com/trac\u{212a}"));
}

#[test]
fn dollar_wins_over_other_currencies() {
    assert_eq!(detect_currency("$5 EUR"), "USD");
    assert_eq!(parse_amount("$100 EUR").unwrap().currency, "USD");
    assert_eq!(detect_currency("5 USD £"), "USD");
    assert_eq!(detect_currency("€5 GBP"), "EUR");
    assert_eq!(detect_currency("5 EUR"), "EUR");
    assert_eq!(detect_currency("£5"), "GBP");
    assert_eq!(detect_currency("5 GBP"), "GBP");
    assert_eq!(detect_currency("¥500"), "USD");
    assert_eq!(detect_currency("5 CAD"), "USD");
    assert_eq!(detect_currency("5 usd eur"), "USD");
}

#[test]
fn amount_numerals() {
    assert_eq!(numeral_of("$1,234,567.89").as_deref(), Some("1234567.89"));
    assert_eq!(numeral_of("5.").as_deref(), Some("5."));
    assert_eq!(numeral_of(".5").as_deref(), Some(".5"));
    assert_eq!(numeral_of("$,,,"), None);
    assert_eq!(numeral_of("."), None);
    assert_eq!(numeral_of("1.2.3"), None);
    assert_eq!(numeral_of(""), None);
    assert_eq!(numeral_of("$\u{663}"), None);
    for text in ["5.", ".5", "007", "1234567.89", "", ".", "1.2.3", "12345678901234567890123"] {
        assert_eq!(numeral_of(text).is_some(), text.parse::<f64>().is_ok(), "{text:?}");
    }
}

#[test]
fn amount_without_number_is_skipped() {
    let e = ExtractedEntities::extract("pay $,,, now or 20 USD later");
    assert_eq!(e.amounts.len(), 1);
    assert_eq!(e.amounts[0].raw, "20 USD");
    assert_eq!(e.amounts[0].value, "20");
    assert!(parse_amount("$,").is_none());
}

#[test]
fn phone_normalization() {
    assert_eq!(normalize_phone("+1-555-987-6543"), "+15559876543");
    assert_eq!(normalize_phone("(555) 123-4567"), "5551234567");
    assert_eq!(normalize_phone("1+2+3"), "123");
    assert_eq!(normalize_phone(""), "");
    assert_eq!(normalize_phone("+"), "+");
    assert_eq!(normalize_phone("\u{661}23"), "23");
}

#[test]
fn phone_types() {
    assert_eq!(detect_phone_type("+18005551234"), PhoneType::TollFree);
    assert_eq!(detect_phone_type("18885551234"), PhoneType::TollFree);
    assert_eq!(detect_phone_type("1-877-5551234"), PhoneType::TollFree);
    assert_eq!(detect_phone_type("8005551234"), PhoneType::Unknown);
    assert_eq!(detect_phone_type("18665551234"), PhoneType::Unknown);
    assert_eq!(detect_phone_type(""), PhoneType::Unknown);
    let p = phone_from("+1 800 555 1234");
    assert_eq!(p.raw, "+1 800 555 1234");
    assert_eq!(p.normalized, "+18005551234");
    assert_eq!(p.phone_type, PhoneType::TollFree);
    assert!(p.country_code.is_none());
}

#[test]
fn domains() {
    assert_eq!(extract_domain("https://example.com/path/x"), "example.com");
    assert_eq!(extract_domain("http://example.com"), "example.com");
    assert_eq!(extract_domain("https://https://a.b/c"), "a.b");
    assert_eq!(extract_domain("https://http://a.b/c"), "a.b");
    assert_eq!(extract_domain("http://https://a.b/c"), "https:");
    assert_eq!(extract_domain("ftp://a.b/c"), "ftp:");
    assert_eq!(extract_domain("https://"), "");
    assert_eq!(extract_domain(""), "");
    assert_eq!(extract_domain("https://example.com?utm_source=x"), "example.com?utm_source=x");
    let u = url_from("https://LinkedIn.com/in/jane");
    assert_eq!(u.domain, "LinkedIn.com");
    assert_eq!(u.url_type, UrlType::SocialMedia);
    assert!(!u.is_tracking);
}

#[test]
fn snapping_goes_back_to_a_boundary() {
    let s = "a€b";
    assert_eq!(snap_to_char_boundary(s, 0), 0);
    assert_eq!(snap_to_char_boundary(s, 1), 1);
    assert_eq!(snap_to_char_boundary(s, 2), 1);
    assert_eq!(snap_to_char_boundary(s, 3), 1);
    assert_eq!(snap_to_char_boundary(s, 4), 4);
    assert_eq!(snap_to_char_boundary(s, 5), 5);
    assert_eq!(snap_to_char_boundary(s, 99), 5);
    assert_eq!(snap_to_char_boundary("", 0), 0);
    assert_eq!(snap_to_char_boundary("", 7), 0);
    assert_eq!(snap_to_next_char_boundary(s, 0), 0);
    assert_eq!(snap_to_next_char_boundary(s, 1), 1);
    assert_eq!(snap_to_next_char_boundary(s, 2), 4);
    assert_eq!(snap_to_next_char_boundary(s, 3), 4);
    assert_eq!(snap_to_next_char_boundary(s, 4), 4);
    assert_eq!(snap_to_next_char_boundary(s, 99), 5);
    assert_eq!(snap_to_next_char_boundary("", 3), 0);
}

#[test]
fn context_is_cut_inward_at_both_ends() {
    let text = format!("€{}a@b.cd{}€", "#".repeat(28), "#".repeat(28));
    let e = ExtractedEntities::extract(&text);
    assert_eq!(e.emails[0].position, 31);
    assert_eq!(e.emails[0].context, format!("{}a@b.cd{}", "#".repeat(28), "#".repeat(28)));
    let text = format!("€{}a@b.cd{}€", "#".repeat(27), "#".repeat(27));
    let e = ExtractedEntities::extract(&text);
    assert_eq!(e.emails[0].position, 30);
    assert_eq!(e.emails[0].context, text);
}

#[test]
fn context_window_never_splits_a_character() {
    for pad in ["é", "€", "😀", "x€"] {
        for n in [0, 1, 7, 9, 10, 14, 15, 16, 29, 30, 31] {
            for m in [0, 1, 7, 9, 10, 15, 16, 31] {
                let text = format!("{}{}a@b.cd{}{}", "y".repeat(n % 5), pad.repeat(n), pad.repeat(m), "z".repeat(m % 3));
                let e = ExtractedEntities::extract(&text);
                assert_eq!(e.emails.len(), 1, "{text:?}");
                let found = &e.emails[0];
                let start = found.position;
                assert_eq!(&text[start..start + found.address.len()], found.address);
                assert!(found.context.contains(found.address.as_str()));
                let at = text.find(found.context.as_str()).unwrap();
                assert!(text.is_char_boundary(at));
                assert!(at <= start);
                assert!(start - at <= 30);
                let low = snap_to_next_char_boundary(&text, start.saturating_sub(30));
                let high = snap_to_char_boundary(&text, (start + found.address.len() + 30).min(text.len()));
                assert_eq!(found.context, text[low..high]);
            }
        }
    }
}

#[test]
fn context_of_a_match_by_its_span() {
    let text = "0123456789012345678901234567890123456789 me@ex.org 0123456789012345678901234567890123456789";
    let e = email_from(text, 41, 50);
    assert_eq!(e.address, "me@ex.org");
    assert_eq!(e.position, 41);
    assert_eq!(e.context, &text[11..80]);
    let e = email_from("me@ex.org", 0, 9);
    assert_eq!(e.context, "me@ex.org");
}

#[test]
fn emails_keep_their_order() {
    let e = ExtractedEntities::extract("z@last.org then a@first.org");
    assert_eq!(e.emails[0].address, "z@last.org");
    assert_eq!(e.emails[0].position, 0);
    assert_eq!(e.emails[1].address, "a@first.org");
    assert_eq!(e.emails[1].position, 16);
}

#[test]
fn handles_of_both_kinds() {
    let e = ExtractedEntities::extract("follow @rustlang and linkedin.com/in/jane-doe");
    assert_eq!(e.social_handles.len(), 2);
    assert_eq!(e.social_handles[0].platform, SocialPlatform::Twitter);
    assert_eq!(e.social_handles[0].handle, "rustlang");
    assert_eq!(e.social_handles[1].platform, SocialPlatform::LinkedIn);
    assert_eq!(e.social_handles[1].handle, "jane-doe");
}

#[test]
fn an_address_is_also_a_handle() {
    let e = ExtractedEntities::extract("write to joe@example.com");
    assert_eq!(e.emails.len(), 1);
    assert_eq!(e.social_handles.len(), 1);
    assert_eq!(e.social_handles[0].handle, "example");
}

#[test]
fn counts() {
    let e = ExtractedEntities::extract("");
    assert!(e.is_empty());
    assert_eq!(e.total_count(), 0);
    let e = ExtractedEntities::extract("only @handle here");
    assert!(e.is_empty());
    assert_eq!(e.total_count(), 1);
    let e = ExtractedEntities::extract("a@b.cd 555-123-4567 https://x.y $5 @h");
    assert!(!e.is_empty());
    assert_eq!(e.emails.len(), 1);
    assert_eq!(e.phone_numbers.len(), 1);
    assert_eq!(e.urls.len(), 1);
    assert_eq!(e.amounts.len(), 1);
    assert_eq!(e.total_count(), e.emails.len() + e.phone_numbers.len() + e.urls.len() + e.amounts.len() + e.social_handles.len());
    assert!(e.names.is_empty() && e.companies.is_empty() && e.dates.is_empty() && e.addresses.is_empty());
    let d = ExtractedEntities::default();
    assert!(d.is_empty());
    assert_eq!(d.total_count(), 0);
}

#[test]
fn from_spans_builds_what_the_spans_say() {
    let text = "ab €5 cd";
    let e = ExtractedEntities::from_spans(
        text,
        &vec![(0, 2)],
        &vec![(7, 9), (0, 0)],
        &vec![],
        &vec![(3, 7), (0, 2)],
        &vec![None, Some((8, 10))],
        &vec![Some((0, 1))],
    );
    assert_eq!(e.emails[0].address, "ab");
    assert_eq!(e.emails[0].context, text);
    assert_eq!(e.phone_numbers.len(), 2);
    assert_eq!(e.phone_numbers[0].raw, " c");
    assert_eq!(e.phone_numbers[1].raw, "");
    assert_eq!(e.amounts.len(), 1);
    assert_eq!(e.amounts[0].raw, "€5");
    assert_eq!(e.amounts[0].currency, "EUR");
    assert_eq!(e.social_handles.len(), 2);
    assert_eq!(e.social_handles[0].handle, "cd");
    assert_eq!(e.social_handles[0].platform, SocialPlatform::Twitter);
    assert_eq!(e.social_handles[1].handle, "a");
    assert_eq!(e.social_handles[1].platform, SocialPlatform::LinkedIn);
}
