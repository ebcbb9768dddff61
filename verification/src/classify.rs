//! What is read off a matched piece of text: the digits of a phone number
//! and its type, the domain and the type of a URL, the numeral and the
//! currency of an amount.

use crate::text::{
    chars_of, contains, contains_text, digit, ends_with, has_prefix, has_suffix, index_of,
    is_digit, lowercase, position_of, starts_with, string_of, subvec, text_of, to_lowercase,
};
use vstd::prelude::*;
use vstd::string::*;

verus! {

/// Type of phone number.
#[derive(Debug, Clone, Copy, PartialEq, Eq, Structural)]
pub enum PhoneType {
    Mobile,
    Landline,
    TollFree,
    Unknown,
}

/// Type of URL.
#[derive(Debug, Clone, Copy, PartialEq, Eq, Structural)]
pub enum UrlType {
    Website,
    SocialMedia,
    Unsubscribe,
    Tracking,
    Calendar,
    Document,
    Other,
}

/// The ASCII digits of `s`, in order.
pub open spec fn keep_digits(s: Seq<char>) -> Seq<char>
    decreases s.len(),
{
    if s.len() == 0 {
        Seq::empty()
    } else if is_digit(s.last()) {
        keep_digits(s.drop_last()).push(s.last())
    } else {
        keep_digits(s.drop_last())
    }
}

/// The normalized form of a phone number: its digits, after a `+` where the
/// number begins with one.
pub open spec fn normalized_phone(raw: Seq<char>) -> Seq<char> {
    if raw.len() > 0 && raw[0] == '+' {
        seq!['+'] + keep_digits(raw)
    } else {
        keep_digits(raw)
    }
}

/// The type of a normalized phone number: toll-free where its digits begin
/// with 1800, 1888 or 1877; otherwise unknown.
pub open spec fn phone_type_of(normalized: Seq<char>) -> PhoneType {
    let d = keep_digits(normalized);
    if starts_with(d, "1800"@) || starts_with(d, "1888"@) || starts_with(d, "1877"@) {
        PhoneType::TollFree
    } else {
        PhoneType::Unknown
    }
}

/// Appends the digits of `v` to `out`.
fn push_digits(v: &Vec<char>, out: &mut Vec<char>)
    ensures
        final(out)@ == old(out)@ + keep_digits(v@),
{
    let ghost before = out@;
    let mut i: usize = 0;
    proof {
        assert(v@.take(0) =~= Seq::<char>::empty());
        assert(before + keep_digits(v@.take(0)) =~= before);
    }
    while i < v.len()
        invariant
            i <= v.len(),
            out@ == before + keep_digits(v@.take(i as int)),
        decreases v.len() - i,
    {
        proof {
            assert(v@.take(i + 1).drop_last() =~= v@.take(i as int));
            assert(v@.take(i + 1).last() == v@[i as int]);
            if is_digit(v@[i as int]) {
                assert(before + keep_digits(v@.take(i as int)).push(v@[i as int]) =~= (before
                    + keep_digits(v@.take(i as int))).push(v@[i as int]));
            }
        }
        if digit(v[i]) {
            out.push(v[i]);
        }
        i += 1;
    }
    proof {
        assert(v@.take(v@.len() as int) =~= v@);
    }
}

/// Normalizes a phone number to its digits and a leading `+`.
pub fn normalize_phone(phone: &str) -> (r: String)
    ensures
        r@ == normalized_phone(phone@),
{
    let v = chars_of(phone);
    let mut out: Vec<char> = Vec::new();
    if v.len() > 0 && v[0] == '+' {
        out.push('+');
    }
    proof {
        if v@.len() > 0 && v@[0] == '+' {
            assert(out@ =~= seq!['+']);
        }
    }
    push_digits(&v, &mut out);
    text_of(&out)
}

/// Tells the type of a normalized phone number.
pub fn detect_phone_type(normalized: &str) -> (r: PhoneType)
    ensures
        r == phone_type_of(normalized@),
{
    let v = chars_of(normalized);
    let mut d: Vec<char> = Vec::new();
    push_digits(&v, &mut d);
    assert(d@ =~= keep_digits(v@));
    if has_prefix(&d, &chars_of("1800")) || has_prefix(&d, &chars_of("1888")) || has_prefix(
        &d,
        &chars_of("1877"),
    ) {
        PhoneType::TollFree
    } else {
        PhoneType::Unknown
    }
}

/// `s` without `prefix` at its front, as often as it stands there.
pub open spec fn strip_repeated(s: Seq<char>, prefix: Seq<char>) -> Seq<char>
    decreases s.len(),
{
    if prefix.len() > 0 && starts_with(s, prefix) {
        strip_repeated(s.skip(prefix.len() as int), prefix)
    } else {
        s
    }
}

/// `s` up to its first `/`.
pub open spec fn up_to_slash(s: Seq<char>) -> Seq<char> {
    match index_of(s, '/') {
        Some(i) => s.take(i),
        None => s,
    }
}

/// The domain of a URL: what follows the scheme, up to the first `/`.
pub open spec fn url_domain(url: Seq<char>) -> Seq<char> {
    up_to_slash(strip_repeated(strip_repeated(url, "https://"@), "http://"@))
}

fn without_repeated(v: Vec<char>, prefix: &Vec<char>) -> (r: Vec<char>)
    ensures
        r@ == strip_repeated(v@, prefix@),
{
    if prefix.len() == 0 {
        return v;
    }
    let mut i: usize = 0;
    proof {
        assert(v@.skip(0) =~= v@);
    }
    while has_prefix_at(&v, i, prefix)
        invariant
            i <= v.len(),
            prefix.len() > 0,
            strip_repeated(v@, prefix@) == strip_repeated(v@.skip(i as int), prefix@),
        decreases v.len() - i,
    {
        proof {
            assert(v@.skip(i as int).skip(prefix@.len() as int) =~= v@.skip(i + prefix@.len()));
        }
        i += prefix.len();
    }
    let r = subvec(&v, i, v.len());
    assert(v@.subrange(i as int, v@.len() as int) =~= v@.skip(i as int));
    r
}

/// Whether `prefix` stands in `v` at index `i`.
fn has_prefix_at(v: &Vec<char>, i: usize, prefix: &Vec<char>) -> (b: bool)
    requires
        i <= v.len(),
    ensures
        b == starts_with(v@.skip(i as int), prefix@),
        b ==> i + prefix.len() <= v.len(),
{
    let b = crate::text::occurs(v, i, prefix);
    proof {
        if i + prefix@.len() <= v@.len() {
            assert(v@.skip(i as int).subrange(0, prefix@.len() as int) =~= v@.subrange(
                i as int,
                i + prefix@.len(),
            ));
        }
    }
    b
}

/// Reads the domain off a URL.
pub fn extract_domain(url: &str) -> (r: String)
    ensures
        r@ == url_domain(url@),
{
    let v = chars_of(url);
    let rest = without_repeated(without_repeated(v, &chars_of("https://")), &chars_of("http://"));
    let end = match position_of(&rest, '/') {
        Some(i) => i,
        None => rest.len(),
    };
    proof {
        assert(rest@.subrange(0, end as int) =~= rest@.take(end as int));
        assert(rest@.take(rest@.len() as int) =~= rest@);
    }
    string_of(&rest, 0, end)
}

/// The lower-cased URL holds a marker of click or campaign tracking.
pub open spec fn tracking_marked(lower_url: Seq<char>) -> bool {
    ||| contains(lower_url, "track"@)
    ||| contains(lower_url, "click"@)
    ||| contains(lower_url, "redirect"@)
    ||| contains(lower_url, "utm_"@)
    ||| contains(lower_url, "mc_eid"@)
    ||| contains(lower_url, "trk"@)
}

/// The lower-cased URL is one to leave a mailing list by.
pub open spec fn unsubscribe_marked(lower_url: Seq<char>) -> bool {
    contains(lower_url, "unsubscribe"@) || contains(lower_url, "optout"@)
}

/// The lower-cased domain is that of a social network.
pub open spec fn social_domain(lower_domain: Seq<char>) -> bool {
    ||| contains(lower_domain, "linkedin"@)
    ||| contains(lower_domain, "twitter"@)
    ||| contains(lower_domain, "facebook"@)
    ||| contains(lower_domain, "instagram"@)
}

/// The lower-cased URL leads to a calendar entry.
pub open spec fn calendar_marked(lower_url: Seq<char>) -> bool {
    contains(lower_url, "calendar"@) || contains(lower_url, ".ics"@)
}

/// The lower-cased URL ends like a document.
pub open spec fn document_marked(lower_url: Seq<char>) -> bool {
    ||| ends_with(lower_url, ".pdf"@)
    ||| ends_with(lower_url, ".doc"@)
    ||| ends_with(lower_url, ".docx"@)
    ||| ends_with(lower_url, ".xls"@)
}

/// The type of a URL, from its lower-cased text and its lower-cased domain.
/// The first of these that applies decides: unsubscribe, tracking, social
/// media, calendar, document; a URL to which none applies is a website.
pub open spec fn url_kind(lower_url: Seq<char>, lower_domain: Seq<char>) -> UrlType {
    if unsubscribe_marked(lower_url) {
        UrlType::Unsubscribe
    } else if tracking_marked(lower_url) {
        UrlType::Tracking
    } else if social_domain(lower_domain) {
        UrlType::SocialMedia
    } else if calendar_marked(lower_url) {
        UrlType::Calendar
    } else if document_marked(lower_url) {
        UrlType::Document
    } else {
        UrlType::Website
    }
}

/// The classification is ordered by priority: a URL that holds an
/// unsubscribe marker is an unsubscribe URL, whatever tracking marker, social
/// domain, calendar marker or document ending it has besides.
pub proof fn lemma_unsubscribe_before_tracking(lower_url: Seq<char>, lower_domain: Seq<char>)
    requires
        unsubscribe_marked(lower_url),
    ensures
        url_kind(lower_url, lower_domain) == UrlType::Unsubscribe,
{
}

/// Whether a lower-cased URL holds a tracking marker.
pub fn is_tracking_lower(lower_url: &str) -> (b: bool)
    ensures
        b == tracking_marked(lower_url@),
{
    let v = chars_of(lower_url);
    contains_text(&v, &chars_of("track")) || contains_text(&v, &chars_of("click"))
        || contains_text(&v, &chars_of("redirect")) || contains_text(&v, &chars_of("utm_"))
        || contains_text(&v, &chars_of("mc_eid")) || contains_text(&v, &chars_of("trk"))
}

/// Whether a URL is a tracking URL: its lower-cased text holds a tracking
/// marker.
pub fn is_tracking_url(url: &str) -> (b: bool)
    ensures
        b == tracking_marked(lowercase(url@)),
{
    let lower = to_lowercase(url);
    is_tracking_lower(lower.as_str())
}

/// Tells the type of a URL from its lower-cased text and its lower-cased
/// domain.
pub fn classify_url(lower_url: &str, lower_domain: &str) -> (r: UrlType)
    ensures
        r == url_kind(lower_url@, lower_domain@),
        unsubscribe_marked(lower_url@) ==> r == UrlType::Unsubscribe,
{
    let u = chars_of(lower_url);
    let d = chars_of(lower_domain);
    if contains_text(&u, &chars_of("unsubscribe")) || contains_text(&u, &chars_of("optout")) {
        UrlType::Unsubscribe
    } else if is_tracking_lower(lower_url) {
        UrlType::Tracking
    } else if contains_text(&d, &chars_of("linkedin")) || contains_text(&d, &chars_of("twitter"))
        || contains_text(&d, &chars_of("facebook")) || contains_text(&d, &chars_of("instagram")) {
        UrlType::SocialMedia
    } else if contains_text(&u, &chars_of("calendar")) || contains_text(&u, &chars_of(".ics")) {
        UrlType::Calendar
    } else if has_suffix(&u, &chars_of(".pdf")) || has_suffix(&u, &chars_of(".doc")) || has_suffix(
        &u,
        &chars_of(".docx"),
    ) || has_suffix(&u, &chars_of(".xls")) {
        UrlType::Document
    } else {
        UrlType::Website
    }
}

/// Tells the type of a URL with the given domain.
pub fn detect_url_type(url: &str, domain: &str) -> (r: UrlType)
    ensures
        r == url_kind(lowercase(url@), lowercase(domain@)),
        unsubscribe_marked(lowercase(url@)) ==> r == UrlType::Unsubscribe,
{
    let lower = to_lowercase(url);
    let domain_lower = to_lowercase(domain);
    classify_url(lower.as_str(), domain_lower.as_str())
}

/// The digits and decimal points of `s`, in order.
pub open spec fn keep_numeral(s: Seq<char>) -> Seq<char>
    decreases s.len(),
{
    if s.len() == 0 {
        Seq::empty()
    } else if is_digit(s.last()) || s.last() == '.' {
        keep_numeral(s.drop_last()).push(s.last())
    } else {
        keep_numeral(s.drop_last())
    }
}

/// A text of digits and decimal points writes a decimal number: it has a
/// digit, and one decimal point at most.
pub open spec fn is_decimal_numeral(s: Seq<char>) -> bool {
    keep_digits(s).len() > 0 && s.len() - keep_digits(s).len() <= 1
}

/// The currency of an amount: USD where it holds `$` or `USD`; else EUR
/// where it holds `€` or `EUR`; else GBP where it holds `£` or `GBP`; else
/// USD.
pub open spec fn currency_of(raw: Seq<char>) -> Seq<char> {
    if index_of(raw, '$') is Some || contains(raw, "USD"@) {
        "USD"@
    } else if index_of(raw, '€') is Some || contains(raw, "EUR"@) {
        "EUR"@
    } else if index_of(raw, '£') is Some || contains(raw, "GBP"@) {
        "GBP"@
    } else {
        "USD"@
    }
}

/// The resolution of the currency is ordered by priority: an amount that
/// holds `$` is in USD, whatever other currency it names.
pub proof fn lemma_dollar_before_other_currencies(raw: Seq<char>)
    requires
        index_of(raw, '$') is Some,
    ensures
        currency_of(raw) == "USD"@,
{
}

/// Tells the currency of an amount.
pub fn detect_currency(raw: &str) -> (r: String)
    ensures
        r@ == currency_of(raw@),
        index_of(raw@, '$') is Some ==> r@ == "USD"@,
{
    let v = chars_of(raw);
    if position_of(&v, '$').is_some() || contains_text(&v, &chars_of("USD")) {
        "USD".to_owned()
    } else if position_of(&v, '€').is_some() || contains_text(&v, &chars_of("EUR")) {
        "EUR".to_owned()
    } else if position_of(&v, '£').is_some() || contains_text(&v, &chars_of("GBP")) {
        "GBP".to_owned()
    } else {
        "USD".to_owned()
    }
}

/// The decimal numeral of an amount: its digits and decimal points, where
/// they write a number.
pub fn numeral_of(raw: &str) -> (r: Option<String>)
    ensures
        match r {
            Some(n) => is_decimal_numeral(keep_numeral(raw@)) && n@ == keep_numeral(raw@),
            None => !is_decimal_numeral(keep_numeral(raw@)),
        },
{
    let v = chars_of(raw);
    let mut out: Vec<char> = Vec::new();
    let mut digits: usize = 0;
    let mut i: usize = 0;
    proof {
        assert(v@.take(0) =~= Seq::<char>::empty());
    }
    while i < v.len()
        invariant
            i <= v.len(),
            out@ == keep_numeral(v@.take(i as int)),
            digits == keep_digits(out@).len(),
            digits <= out@.len() <= i,
        decreases v.len() - i,
    {
        let c = v[i];
        proof {
            assert(v@.take(i + 1).drop_last() =~= v@.take(i as int));
            assert(v@.take(i + 1).last() == c);
            assert(out@.push(c).drop_last() =~= out@);
        }
        if digit(c) {
            out.push(c);
            digits += 1;
        } else if c == '.' {
            out.push(c);
        }
        i += 1;
    }
    proof {
        assert(v@.take(v@.len() as int) =~= v@);
    }
    if digits > 0 && out.len() - digits <= 1 {
        Some(text_of(&out))
    } else {
        None
    }
}

} // verus!
