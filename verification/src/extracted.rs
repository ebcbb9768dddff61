//! Entity extraction from email content: addresses, phone numbers, URLs,
//! monetary amounts and social handles found in a text.

use crate::classify::{
    currency_of, detect_currency, detect_phone_type, detect_url_type, extract_domain,
    is_decimal_numeral, is_tracking_url, keep_numeral, normalize_phone, normalized_phone,
    numeral_of, phone_type_of, tracking_marked, url_domain, url_kind, PhoneType, UrlType,
};
use crate::span::{
    byte_slice, find_group_spans, find_spans, group_spans_in, lemma_snap_back,
    lemma_snap_forward, regex_group_spans, regex_spans, slice, snap_back, snap_forward,
    snap_to_char_boundary, snap_to_next_char_boundary, spans_in, spans_ordered, valid_span,
};
use crate::text::{lowercase, opt_text};
use vstd::prelude::*;
use vstd::string::*;
use vstd::utf8::{encode_utf8, encode_utf8_valid_utf8};

verus! {

/// The pattern of an email address.
pub const EMAIL_PATTERN: &'static str = "[a-zA-Z0-9._%+-]+@[a-zA-Z0-9.-]+\\.[a-zA-Z]{2,}";

/// The pattern of a phone number in the North American style.
pub const PHONE_PATTERN: &'static str =
    "(?:\\+?1[-.\\s]?)?(?:\\(?\\d{3}\\)?[-.\\s]?)?\\d{3}[-.\\s]?\\d{4}";

/// The pattern of a URL.
pub const URL_PATTERN: &'static str = "https?://[^\\s<>\\[\\]{}|\\\\^]+";

/// The pattern of a monetary amount.
pub const AMOUNT_PATTERN: &'static str =
    "(?:[$€£¥])\\s*[\\d,]+(?:\\.\\d{2})?|[\\d,]+(?:\\.\\d{2})?\\s*(?:USD|EUR|GBP|CAD|AUD)";

/// The pattern of a Twitter handle; group 1 is the handle.
pub const TWITTER_PATTERN: &'static str = "@([a-zA-Z0-9_]{1,15})";

/// The pattern of a LinkedIn profile path; group 1 is the handle.
pub const LINKEDIN_PATTERN: &'static str = "linkedin\\.com/in/([a-zA-Z0-9-]+)";

/// Number of bytes of context kept on each side of an address.
pub const CONTEXT_BYTES: usize = 30;

/// Extracted email address.
#[derive(Debug, Clone)]
pub struct ExtractedEmail {
    pub address: String,
    /// The text around the address.
    pub context: String,
    /// Byte offset of the address in the text.
    pub position: usize,
}

/// An extracted email address as texts.
pub struct ExtractedEmailView {
    pub address: Seq<char>,
    pub context: Seq<char>,
    pub position: usize,
}

impl View for ExtractedEmail {
    type V = ExtractedEmailView;

    open spec fn view(&self) -> ExtractedEmailView {
        ExtractedEmailView {
            address: self.address@,
            context: self.context@,
            position: self.position,
        }
    }
}

/// Phone number with type detection.
#[derive(Debug, Clone)]
pub struct PhoneNumber {
    pub raw: String,
    pub normalized: String,
    pub phone_type: PhoneType,
    pub country_code: Option<String>,
}

/// A phone number as texts.
pub struct PhoneNumberView {
    pub raw: Seq<char>,
    pub normalized: Seq<char>,
    pub phone_type: PhoneType,
    pub country_code: Option<Seq<char>>,
}

impl View for PhoneNumber {
    type V = PhoneNumberView;

    open spec fn view(&self) -> PhoneNumberView {
        PhoneNumberView {
            raw: self.raw@,
            normalized: self.normalized@,
            phone_type: self.phone_type,
            country_code: opt_text(self.country_code),
        }
    }
}

/// Extracted URL with analysis.
#[derive(Debug, Clone)]
pub struct ExtractedUrl {
    pub url: String,
    pub domain: String,
    pub is_tracking: bool,
    pub url_type: UrlType,
}

/// An extracted URL as texts.
pub struct ExtractedUrlView {
    pub url: Seq<char>,
    pub domain: Seq<char>,
    pub is_tracking: bool,
    pub url_type: UrlType,
}

impl View for ExtractedUrl {
    type V = ExtractedUrlView;

    open spec fn view(&self) -> ExtractedUrlView {
        ExtractedUrlView {
            url: self.url@,
            domain: self.domain@,
            is_tracking: self.is_tracking,
            url_type: self.url_type,
        }
    }
}

/// Monetary amount.
#[derive(Debug, Clone)]
pub struct MonetaryAmount {
    pub raw: String,
    /// The value as a decimal numeral, without thousands separators.
    pub value: String,
    /// Three-letter currency code.
    pub currency: String,
}

/// A monetary amount as texts.
pub struct MonetaryAmountView {
    pub raw: Seq<char>,
    pub value: Seq<char>,
    pub currency: Seq<char>,
}

impl View for MonetaryAmount {
    type V = MonetaryAmountView;

    open spec fn view(&self) -> MonetaryAmountView {
        MonetaryAmountView { raw: self.raw@, value: self.value@, currency: self.currency@ }
    }
}

/// Social media platform.
#[derive(Debug, Clone, PartialEq, Eq)]
pub enum SocialPlatform {
    Twitter,
    LinkedIn,
    Instagram,
    Facebook,
    GitHub,
    Other(String),
}

/// Social media handle.
#[derive(Debug, Clone)]
pub struct SocialHandle {
    pub platform: SocialPlatform,
    pub handle: String,
}

/// A social media handle as text.
pub struct SocialHandleView {
    pub platform: SocialPlatform,
    pub handle: Seq<char>,
}

impl View for SocialHandle {
    type V = SocialHandleView;

    open spec fn view(&self) -> SocialHandleView {
        SocialHandleView { platform: self.platform, handle: self.handle@ }
    }
}

/// All entities extracted from email content.
#[derive(Debug, Clone)]
pub struct ExtractedEntities {
    /// Email addresses found in body.
    pub emails: Vec<ExtractedEmail>,
    /// Phone numbers found.
    pub phone_numbers: Vec<PhoneNumber>,
    /// URLs found.
    pub urls: Vec<ExtractedUrl>,
    /// Possible person names.
    pub names: Vec<String>,
    /// Company names detected.
    pub companies: Vec<String>,
    /// Dates mentioned.
    pub dates: Vec<String>,
    /// Monetary amounts.
    pub amounts: Vec<MonetaryAmount>,
    /// Physical addresses.
    pub addresses: Vec<String>,
    /// Social media handles.
    pub social_handles: Vec<SocialHandle>,
}

/// Where the context of a match that starts at `start` begins: 30 bytes
/// before it, or at the start of the text, moved inward to a character
/// boundary.
pub open spec fn context_start(bytes: Seq<u8>, start: int) -> int {
    snap_forward(
        bytes,
        if start >= CONTEXT_BYTES {
            start - CONTEXT_BYTES
        } else {
            0
        },
    )
}

/// Where the context of a match that ends at `end` ends: 30 bytes after
/// it, or at the end of the text, moved inward to a character boundary.
pub open spec fn context_end(bytes: Seq<u8>, end: int) -> int {
    snap_back(
        bytes,
        if end + CONTEXT_BYTES <= bytes.len() {
            end + CONTEXT_BYTES
        } else {
            bytes.len() as int
        },
    )
}

/// The context window of a match begins and ends on character boundaries of
/// the text, the match lies within it, and it reaches 30 bytes at most to
/// each side of the match.
pub proof fn lemma_context_window(text: Seq<char>, start: int, end: int)
    requires
        valid_span(encode_utf8(text), start, end),
    ensures
        valid_span(
            encode_utf8(text),
            context_start(encode_utf8(text), start),
            context_end(encode_utf8(text), end),
        ),
        start - CONTEXT_BYTES <= context_start(encode_utf8(text), start) <= start,
        end <= context_end(encode_utf8(text), end) <= end + CONTEXT_BYTES,
{
    let bytes = encode_utf8(text);
    encode_utf8_valid_utf8(text);
    let from: int = if start >= CONTEXT_BYTES {
        start - CONTEXT_BYTES
    } else {
        0
    };
    let to: int = if end + CONTEXT_BYTES <= bytes.len() {
        end + CONTEXT_BYTES
    } else {
        bytes.len() as int
    };
    lemma_snap_forward(bytes, from);
    lemma_snap_back(bytes, to);
}

/// The email that the match with the given span stands for: the matched
/// address, the text around it, and where it begins.
pub open spec fn email_at(text: Seq<char>, span: (usize, usize)) -> ExtractedEmailView {
    let bytes = encode_utf8(text);
    ExtractedEmailView {
        address: byte_slice(text, span.0 as int, span.1 as int),
        context: byte_slice(
            text,
            context_start(bytes, span.0 as int),
            context_end(bytes, span.1 as int),
        ),
        position: span.0,
    }
}

/// The phone number that the match with the given span stands for.
pub open spec fn phone_at(text: Seq<char>, span: (usize, usize)) -> PhoneNumberView {
    let raw = byte_slice(text, span.0 as int, span.1 as int);
    PhoneNumberView {
        raw,
        normalized: normalized_phone(raw),
        phone_type: phone_type_of(normalized_phone(raw)),
        country_code: None,
    }
}

/// The URL that the match with the given span stands for.
pub open spec fn url_at(text: Seq<char>, span: (usize, usize)) -> ExtractedUrlView {
    let url = byte_slice(text, span.0 as int, span.1 as int);
    ExtractedUrlView {
        url,
        domain: url_domain(url),
        is_tracking: tracking_marked(lowercase(url)),
        url_type: url_kind(lowercase(url), lowercase(url_domain(url))),
    }
}

/// The amount that a matched text stands for; none where its digits and
/// decimal points write no number.
pub open spec fn amount_of(raw: Seq<char>) -> Option<MonetaryAmountView> {
    if is_decimal_numeral(keep_numeral(raw)) {
        Some(MonetaryAmountView { raw, value: keep_numeral(raw), currency: currency_of(raw) })
    } else {
        None
    }
}

/// The amounts that the matches with the given spans stand for, in order;
/// a match that stands for none is passed over.
pub open spec fn amounts_at(text: Seq<char>, spans: Seq<(usize, usize)>) -> Seq<
    MonetaryAmountView,
>
    decreases spans.len(),
{
    if spans.len() == 0 {
        Seq::empty()
    } else {
        let before = amounts_at(text, spans.drop_last());
        match amount_of(byte_slice(text, spans.last().0 as int, spans.last().1 as int)) {
            Some(a) => before.push(a),
            None => before,
        }
    }
}

/// The handles on `platform` that the group spans stand for, in order; a
/// match in which the group took no part is passed over.
pub open spec fn handles_at(
    text: Seq<char>,
    platform: SocialPlatform,
    spans: Seq<Option<(usize, usize)>>,
) -> Seq<SocialHandleView>
    decreases spans.len(),
{
    if spans.len() == 0 {
        Seq::empty()
    } else {
        let before = handles_at(text, platform, spans.drop_last());
        match spans.last() {
            Some(sp) => before.push(
                SocialHandleView { platform, handle: byte_slice(text, sp.0 as int, sp.1 as int) },
            ),
            None => before,
        }
    }
}

/// The amounts as texts.
pub open spec fn amount_views(v: Seq<MonetaryAmount>) -> Seq<MonetaryAmountView> {
    v.map_values(|a: MonetaryAmount| a@)
}

/// The handles as texts.
pub open spec fn handle_views(v: Seq<SocialHandle>) -> Seq<SocialHandleView> {
    v.map_values(|h: SocialHandle| h@)
}

/// Builds the email of one match.
pub fn email_from(text: &str, start: usize, end: usize) -> (r: ExtractedEmail)
    requires
        valid_span(text.spec_bytes(), start as int, end as int),
    ensures
        r@ == email_at(text@, (start, end)),
        valid_span(
            text.spec_bytes(),
            context_start(text.spec_bytes(), start as int),
            context_end(text.spec_bytes(), end as int),
        ),
        start - CONTEXT_BYTES <= context_start(text.spec_bytes(), start as int) <= start,
        end <= context_end(text.spec_bytes(), end as int) <= end + CONTEXT_BYTES,
{
    proof {
        lemma_context_window(text@, start as int, end as int);
    }
    let len = text.as_bytes().len();
    let from = snap_to_next_char_boundary(
        text,
        if start >= CONTEXT_BYTES {
            start - CONTEXT_BYTES
        } else {
            0
        },
    );
    let to = snap_to_char_boundary(
        text,
        if len - end >= CONTEXT_BYTES {
            end + CONTEXT_BYTES
        } else {
            len
        },
    );
    ExtractedEmail {
        address: slice(text, start, end).to_owned(),
        context: slice(text, from, to).to_owned(),
        position: start,
    }
}

/// Builds the phone number of one match.
pub fn phone_from(raw: &str) -> (r: PhoneNumber)
    ensures
        r.raw@ == raw@,
        r.normalized@ == normalized_phone(raw@),
        r.phone_type == phone_type_of(normalized_phone(raw@)),
        r.country_code is None,
{
    let normalized = normalize_phone(raw);
    let phone_type = detect_phone_type(normalized.as_str());
    PhoneNumber { raw: raw.to_owned(), normalized, phone_type, country_code: None }
}

/// Builds the URL of one match.
pub fn url_from(url: &str) -> (r: ExtractedUrl)
    ensures
        r.url@ == url@,
        r.domain@ == url_domain(url@),
        r.is_tracking == tracking_marked(lowercase(url@)),
        r.url_type == url_kind(lowercase(url@), lowercase(url_domain(url@))),
{
    let domain = extract_domain(url);
    let is_tracking = is_tracking_url(url);
    let url_type = detect_url_type(url, domain.as_str());
    ExtractedUrl { url: url.to_owned(), domain, is_tracking, url_type }
}

/// Reads a matched text as a monetary amount.
pub fn parse_amount(raw: &str) -> (r: Option<MonetaryAmount>)
    ensures
        match r {
            Some(a) => amount_of(raw@) == Some(a@),
            None => amount_of(raw@) is None,
        },
{
    match numeral_of(raw) {
        Some(value) => Some(
            MonetaryAmount { raw: raw.to_owned(), value, currency: detect_currency(raw) },
        ),
        None => None,
    }
}

fn emails_from(text: &str, spans: &Vec<(usize, usize)>) -> (r: Vec<ExtractedEmail>)
    requires
        spans_in(text@, spans@),
    ensures
        r@.len() == spans@.len(),
        forall|i: int| 0 <= i < spans@.len() ==> (#[trigger] r@[i])@ == email_at(text@, spans@[i]),
{
    let mut r: Vec<ExtractedEmail> = Vec::new();
    let mut i: usize = 0;
    while i < spans.len()
        invariant
            i <= spans.len(),
            spans_in(text@, spans@),
            r@.len() == i,
            forall|k: int| 0 <= k < i ==> (#[trigger] r@[k])@ == email_at(text@, spans@[k]),
        decreases spans.len() - i,
    {
        let sp = spans[i];
        assert(valid_span(encode_utf8(text@), spans@[i as int].0 as int, spans@[i as int].1 as int));
        r.push(email_from(text, sp.0, sp.1));
        i += 1;
    }
    r
}

fn phones_from(text: &str, spans: &Vec<(usize, usize)>) -> (r: Vec<PhoneNumber>)
    requires
        spans_in(text@, spans@),
    ensures
        r@.len() == spans@.len(),
        forall|i: int| 0 <= i < spans@.len() ==> (#[trigger] r@[i])@ == phone_at(text@, spans@[i]),
{
    let mut r: Vec<PhoneNumber> = Vec::new();
    let mut i: usize = 0;
    while i < spans.len()
        invariant
            i <= spans.len(),
            spans_in(text@, spans@),
            r@.len() == i,
            forall|k: int| 0 <= k < i ==> (#[trigger] r@[k])@ == phone_at(text@, spans@[k]),
        decreases spans.len() - i,
    {
        let sp = spans[i];
        assert(valid_span(encode_utf8(text@), spans@[i as int].0 as int, spans@[i as int].1 as int));
        r.push(phone_from(slice(text, sp.0, sp.1)));
        i += 1;
    }
    r
}

fn urls_from(text: &str, spans: &Vec<(usize, usize)>) -> (r: Vec<ExtractedUrl>)
    requires
        spans_in(text@, spans@),
    ensures
        r@.len() == spans@.len(),
        forall|i: int| 0 <= i < spans@.len() ==> (#[trigger] r@[i])@ == url_at(text@, spans@[i]),
{
    let mut r: Vec<ExtractedUrl> = Vec::new();
    let mut i: usize = 0;
    while i < spans.len()
        invariant
            i <= spans.len(),
            spans_in(text@, spans@),
            r@.len() == i,
            forall|k: int| 0 <= k < i ==> (#[trigger] r@[k])@ == url_at(text@, spans@[k]),
        decreases spans.len() - i,
    {
        let sp = spans[i];
        assert(valid_span(encode_utf8(text@), spans@[i as int].0 as int, spans@[i as int].1 as int));
        r.push(url_from(slice(text, sp.0, sp.1)));
        i += 1;
    }
    r
}

fn amounts_from(text: &str, spans: &Vec<(usize, usize)>) -> (r: Vec<MonetaryAmount>)
    requires
        spans_in(text@, spans@),
    ensures
        amount_views(r@) == amounts_at(text@, spans@),
{
    let mut r: Vec<MonetaryAmount> = Vec::new();
    let mut i: usize = 0;
    proof {
        assert(spans@.take(0) =~= Seq::<(usize, usize)>::empty());
        assert(amount_views(r@) =~= Seq::<MonetaryAmountView>::empty());
    }
    while i < spans.len()
        invariant
            i <= spans.len(),
            spans_in(text@, spans@),
            amount_views(r@) == amounts_at(text@, spans@.take(i as int)),
        decreases spans.len() - i,
    {
        let sp = spans[i];
        proof {
            assert(valid_span(
                encode_utf8(text@),
                spans@[i as int].0 as int,
                spans@[i as int].1 as int,
            ));
            assert(spans@.take(i + 1).drop_last() =~= spans@.take(i as int));
            assert(spans@.take(i + 1).last() == spans@[i as int]);
        }
        let ghost before = r@;
        match parse_amount(slice(text, sp.0, sp.1)) {
            Some(a) => {
                r.push(a);
                assert(amount_views(r@) =~= amount_views(before).push(a@));
            },
            None => {},
        }
        i += 1;
    }
    proof {
        assert(spans@.take(spans@.len() as int) =~= spans@);
    }
    r
}

/// Appends to `out` the handles on the platform that `platform` makes.
fn push_handles(
    text: &str,
    twitter: bool,
    spans: &Vec<Option<(usize, usize)>>,
    out: &mut Vec<SocialHandle>,
)
    requires
        group_spans_in(text@, spans@),
    ensures
        handle_views(final(out)@) == handle_views(old(out)@) + handles_at(
            text@,
            if twitter {
                SocialPlatform::Twitter
            } else {
                SocialPlatform::LinkedIn
            },
            spans@,
        ),
{
    let ghost platform = if twitter {
        SocialPlatform::Twitter
    } else {
        SocialPlatform::LinkedIn
    };
    let ghost start = handle_views(out@);
    let mut i: usize = 0;
    proof {
        assert(spans@.take(0) =~= Seq::<Option<(usize, usize)>>::empty());
        assert(start + handles_at(text@, platform, spans@.take(0)) =~= start);
    }
    while i < spans.len()
        invariant
            i <= spans.len(),
            group_spans_in(text@, spans@),
            platform == if twitter {
                SocialPlatform::Twitter
            } else {
                SocialPlatform::LinkedIn
            },
            handle_views(out@) == start + handles_at(text@, platform, spans@.take(i as int)),
        decreases spans.len() - i,
    {
        proof {
            assert(spans@.take(i + 1).drop_last() =~= spans@.take(i as int));
            assert(spans@.take(i + 1).last() == spans@[i as int]);
        }
        let ghost before = out@;
        match spans[i] {
            Some(sp) => {
                assert(spans@[i as int] == Some(sp));
                let h = SocialHandle {
                    platform: if twitter {
                        SocialPlatform::Twitter
                    } else {
                        SocialPlatform::LinkedIn
                    },
                    handle: slice(text, sp.0, sp.1).to_owned(),
                };
                out.push(h);
                proof {
                    assert(handle_views(out@) =~= handle_views(before).push(h@));
                    assert(handle_views(before).push(h@) =~= start + handles_at(
                        text@,
                        platform,
                        spans@.take(i as int),
                    ).push(h@));
                }
            },
            None => {},
        }
        i += 1;
    }
    proof {
        assert(spans@.take(spans@.len() as int) =~= spans@);
    }
}

/// The context of the email is a piece of `text` cut on character
/// boundaries, and the address begins within it.
pub open spec fn context_in(text: Seq<char>, email: ExtractedEmailView) -> bool {
    exists|from: int, to: int|
        #![trigger byte_slice(text, from, to)]
        valid_span(encode_utf8(text), from, to) && from <= email.position <= to && email.context
            == byte_slice(text, from, to)
}

/// What holds of the matches of the six patterns in any text: every span
/// lies in the text on character boundaries, and the matches of a pattern
/// follow each other without overlap.
pub open spec fn matches_sound(text: Seq<char>) -> bool {
    &&& spans_in(text, regex_spans(EMAIL_PATTERN@, text))
    &&& spans_ordered(regex_spans(EMAIL_PATTERN@, text))
    &&& spans_in(text, regex_spans(PHONE_PATTERN@, text))
    &&& spans_ordered(regex_spans(PHONE_PATTERN@, text))
    &&& spans_in(text, regex_spans(URL_PATTERN@, text))
    &&& spans_ordered(regex_spans(URL_PATTERN@, text))
    &&& spans_in(text, regex_spans(AMOUNT_PATTERN@, text))
    &&& spans_ordered(regex_spans(AMOUNT_PATTERN@, text))
    &&& group_spans_in(text, regex_group_spans(TWITTER_PATTERN@, 1, text))
    &&& group_spans_in(text, regex_group_spans(LINKEDIN_PATTERN@, 1, text))
}

impl ExtractedEntities {
    /// The entities are those that the given matches in `text` stand for,
    /// each family in the order of its matches; the handles of Twitter come
    /// before those of LinkedIn. Names, companies, dates and addresses are
    /// not looked for.
    pub open spec fn holds(
        &self,
        text: Seq<char>,
        emails: Seq<(usize, usize)>,
        phones: Seq<(usize, usize)>,
        urls: Seq<(usize, usize)>,
        amounts: Seq<(usize, usize)>,
        twitter: Seq<Option<(usize, usize)>>,
        linkedin: Seq<Option<(usize, usize)>>,
    ) -> bool {
        &&& self.emails@.len() == emails.len()
        &&& forall|i: int|
            0 <= i < emails.len() ==> (#[trigger] self.emails@[i])@ == email_at(text, emails[i])
        &&& self.phone_numbers@.len() == phones.len()
        &&& forall|i: int|
            0 <= i < phones.len() ==> (#[trigger] self.phone_numbers@[i])@ == phone_at(
                text,
                phones[i],
            )
        &&& self.urls@.len() == urls.len()
        &&& forall|i: int|
            0 <= i < urls.len() ==> (#[trigger] self.urls@[i])@ == url_at(text, urls[i])
        &&& amount_views(self.amounts@) == amounts_at(text, amounts)
        &&& handle_views(self.social_handles@) == handles_at(
            text,
            SocialPlatform::Twitter,
            twitter,
        ) + handles_at(text, SocialPlatform::LinkedIn, linkedin)
        &&& self.names@.len() == 0
        &&& self.companies@.len() == 0
        &&& self.dates@.len() == 0
        &&& self.addresses@.len() == 0
    }

    /// Builds the entities of `text` from the spans of the matches of the
    /// six patterns.
    pub fn from_spans(
        text: &str,
        emails: &Vec<(usize, usize)>,
        phones: &Vec<(usize, usize)>,
        urls: &Vec<(usize, usize)>,
        amounts: &Vec<(usize, usize)>,
        twitter: &Vec<Option<(usize, usize)>>,
        linkedin: &Vec<Option<(usize, usize)>>,
    ) -> (r: ExtractedEntities)
        requires
            spans_in(text@, emails@),
            spans_in(text@, phones@),
            spans_in(text@, urls@),
            spans_in(text@, amounts@),
            group_spans_in(text@, twitter@),
            group_spans_in(text@, linkedin@),
        ensures
            r.holds(text@, emails@, phones@, urls@, amounts@, twitter@, linkedin@),
    {
        let mut social_handles: Vec<SocialHandle> = Vec::new();
        assert(handle_views(social_handles@) =~= Seq::<SocialHandleView>::empty());
        push_handles(text, true, twitter, &mut social_handles);
        push_handles(text, false, linkedin, &mut social_handles);
        proof {
            assert(Seq::<SocialHandleView>::empty() + handles_at(
                text@,
                SocialPlatform::Twitter,
                twitter@,
            ) =~= handles_at(text@, SocialPlatform::Twitter, twitter@));
        }
        ExtractedEntities {
            emails: emails_from(text, emails),
            phone_numbers: phones_from(text, phones),
            urls: urls_from(text, urls),
            names: Vec::new(),
            companies: Vec::new(),
            dates: Vec::new(),
            amounts: amounts_from(text, amounts),
            addresses: Vec::new(),
            social_handles,
        }
    }

    /// Extracts all entities from text content. The matches that the
    /// entities stand for lie in the text on character boundaries and follow
    /// each other without overlap, so the emails stand in the order of their
    /// places in the text.
    pub fn extract(text: &str) -> (r: ExtractedEntities)
        ensures
            matches_sound(text@),
            r.holds(
                text@,
                regex_spans(EMAIL_PATTERN@, text@),
                regex_spans(PHONE_PATTERN@, text@),
                regex_spans(URL_PATTERN@, text@),
                regex_spans(AMOUNT_PATTERN@, text@),
                regex_group_spans(TWITTER_PATTERN@, 1, text@),
                regex_group_spans(LINKEDIN_PATTERN@, 1, text@),
            ),
            forall|i: int, j: int|
                0 <= i < j < r.emails@.len() ==> #[trigger] r.emails@[i].position
                    <= #[trigger] r.emails@[j].position,
            forall|i: int| 0 <= i < r.emails@.len() ==> context_in(text@, #[trigger] r.emails@[i]@),
    {
        let emails = find_spans(EMAIL_PATTERN, text);
        let phones = find_spans(PHONE_PATTERN, text);
        let urls = find_spans(URL_PATTERN, text);
        let amounts = find_spans(AMOUNT_PATTERN, text);
        let twitter = find_group_spans(TWITTER_PATTERN, 1, text);
        let linkedin = find_group_spans(LINKEDIN_PATTERN, 1, text);
        let r = Self::from_spans(text, &emails, &phones, &urls, &amounts, &twitter, &linkedin);
        proof {
            assert forall|i: int, j: int| 0 <= i < j < r.emails@.len() implies
                #[trigger] r.emails@[i].position <= #[trigger] r.emails@[j].position by {
                assert(r.emails@[i]@ == email_at(text@, emails@[i]));
                assert(r.emails@[j]@ == email_at(text@, emails@[j]));
                assert(valid_span(
                    encode_utf8(text@),
                    emails@[i].0 as int,
                    emails@[i].1 as int,
                ));
                assert(emails@[i].1 <= emails@[j].0);
            }
            assert forall|i: int| 0 <= i < r.emails@.len() implies context_in(
                text@,
                #[trigger] r.emails@[i]@,
            ) by {
                let bytes = encode_utf8(text@);
                let span = emails@[i];
                assert(r.emails@[i]@ == email_at(text@, span));
                assert(valid_span(bytes, span.0 as int, span.1 as int));
                lemma_context_window(text@, span.0 as int, span.1 as int);
                let from = context_start(bytes, span.0 as int);
                let to = context_end(bytes, span.1 as int);
                assert(r.emails@[i]@.context == byte_slice(text@, from, to));
            }
        }
        r
    }

    /// Whether no email, phone number, URL or amount was extracted.
    pub fn is_empty(&self) -> (b: bool)
        ensures
            b == (self.emails@.len() == 0 && self.phone_numbers@.len() == 0 && self.urls@.len()
                == 0 && self.amounts@.len() == 0),
    {
        self.emails.is_empty() && self.phone_numbers.is_empty() && self.urls.is_empty()
            && self.amounts.is_empty()
    }

    /// The number of emails, phone numbers, URLs, amounts and social handles
    /// together.
    pub fn total_count(&self) -> (n: usize)
        requires
            self.emails@.len() + self.phone_numbers@.len() + self.urls@.len()
                + self.amounts@.len() + self.social_handles@.len() <= usize::MAX,
        ensures
            n == self.emails@.len() + self.phone_numbers@.len() + self.urls@.len()
                + self.amounts@.len() + self.social_handles@.len(),
    {
        self.emails.len() + self.phone_numbers.len() + self.urls.len() + self.amounts.len()
            + self.social_handles.len()
    }
}

impl Default for ExtractedEntities {
    fn default() -> (r: ExtractedEntities)
        ensures
            r.emails@.len() == 0,
            r.phone_numbers@.len() == 0,
            r.urls@.len() == 0,
            r.names@.len() == 0,
            r.companies@.len() == 0,
            r.dates@.len() == 0,
            r.amounts@.len() == 0,
            r.addresses@.len() == 0,
            r.social_handles@.len() == 0,
    {
        ExtractedEntities {
            emails: Vec::new(),
            phone_numbers: Vec::new(),
            urls: Vec::new(),
            names: Vec::new(),
            companies: Vec::new(),
            dates: Vec::new(),
            amounts: Vec::new(),
            addresses: Vec::new(),
            social_handles: Vec::new(),
        }
    }
}

} // verus!
