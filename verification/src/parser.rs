//! The parser: from the decoded view of a message to the structured email.

use crate::address::{parsed_address, EmailAddress, EmailAddressView};
use crate::body::{line_count, separate_signature, Body};
use crate::error::ParseError;
use crate::extracted::{
    matches_sound, ExtractedEntities, AMOUNT_PATTERN, EMAIL_PATTERN, LINKEDIN_PATTERN, PHONE_PATTERN,
    TWITTER_PATTERN, URL_PATTERN,
};
use crate::headers::{get_header, header_value, name_views, parse_headers};
use crate::html::strip_html;
use crate::metadata::{analyze_metadata, findings_of};
use crate::mime::{
    decode_mime, decoded_mime, header_views, part_views, MimeMessage, MimeMessageView, MimePart,
    MimePartView,
};
use crate::span::{regex_group_spans, regex_spans};
use crate::subject::{capped, Subject};
use crate::text::{
    chars_of, contains, contains_text, lowercase, opt_text, split, split_on, split_whitespace,
    text_of, texts, to_lowercase, words,
};
use crate::types::{synthetic_id, Email, MessageId, ThreadInfo, Timestamp};
use vstd::prelude::*;
use vstd::string::*;

verus! {

/// The message ID of a message: that of its `Message-ID` header, or a
/// synthetic one where it has no such header.
pub open spec fn message_id_of(headers: Seq<(Seq<char>, Seq<char>)>, uid: u32) -> Seq<char> {
    match header_value(headers, "message-id"@) {
        Some(v) => v,
        None => synthetic_id(uid),
    }
}

/// Reads the message ID off the `Message-ID` header, or makes one up from
/// the UID.
pub fn extract_message_id(headers: &Vec<(String, String)>, uid: u32) -> (r: MessageId)
    ensures
        r@ == message_id_of(header_views(headers@), uid),
{
    match get_header(headers, "message-id") {
        Some(v) => MessageId::new(v.as_str()),
        None => MessageId::synthetic(uid),
    }
}

/// Reads the sender off the `From` header. A message without that header,
/// or with one that holds no address, is refused.
pub fn extract_from(headers: &Vec<(String, String)>) -> (r: Result<EmailAddress, ParseError>)
    ensures
        match r {
            Ok(a) => match header_value(header_views(headers@), "from"@) {
                Some(v) => parsed_address(v) == Some(a@) && a.wf(),
                None => false,
            },
            Err(ParseError::MissingHeader(h)) => h@ == "From"@ && header_value(
                header_views(headers@),
                "from"@,
            ) is None,
            Err(ParseError::InvalidHeader { header, details }) => header@ == "From"@
                && match header_value(header_views(headers@), "from"@) {
                Some(v) => parsed_address(v) is None && details@ == "Could not parse: "@ + v,
                None => false,
            },
            Err(_) => false,
        },
{
    match get_header(headers, "from") {
        Some(v) => match EmailAddress::parse(v.as_str()) {
            Some(a) => Ok(a),
            None => Err(
                ParseError::InvalidHeader {
                    header: "From".to_owned(),
                    details: "Could not parse: ".to_owned().concat(v.as_str()),
                },
            ),
        },
        None => Err(ParseError::MissingHeader("From".to_owned())),
    }
}

/// The addresses among `pieces`, in order; a piece that holds no address is
/// passed over.
pub open spec fn addresses_of(pieces: Seq<Seq<char>>) -> Seq<EmailAddressView>
    decreases pieces.len(),
{
    if pieces.len() == 0 {
        Seq::empty()
    } else {
        let before = addresses_of(pieces.drop_last());
        match parsed_address(pieces.last()) {
            Some(a) => before.push(a),
            None => before,
        }
    }
}

/// The recipients that the header `name` lists: the addresses among the
/// pieces of its value between commas.
pub open spec fn recipients_of(headers: Seq<(Seq<char>, Seq<char>)>, name: Seq<char>) -> Seq<
    EmailAddressView,
> {
    match header_value(headers, name) {
        Some(v) => addresses_of(split(v, ',')),
        None => Seq::empty(),
    }
}

/// The addresses as texts.
pub open spec fn address_views(v: Seq<EmailAddress>) -> Seq<EmailAddressView> {
    v.map_values(|a: EmailAddress| a@)
}

/// Reads the recipients off the header with the given lower-case name.
pub fn extract_addresses(headers: &Vec<(String, String)>, header_name: &str) -> (r: Vec<
    EmailAddress,
>)
    ensures
        address_views(r@) == recipients_of(header_views(headers@), header_name@),
        forall|i: int| 0 <= i < r@.len() ==> (#[trigger] r@[i]).wf(),
{
    let mut r: Vec<EmailAddress> = Vec::new();
    assert(address_views(r@) =~= Seq::<EmailAddressView>::empty());
    match get_header(headers, header_name) {
        Some(v) => {
            let pieces = split_on(&chars_of(v.as_str()), ',');
            let ghost all = texts(pieces@);
            let mut i: usize = 0;
            proof {
                assert(all.take(0) =~= Seq::<Seq<char>>::empty());
            }
            while i < pieces.len()
                invariant
                    i <= pieces.len(),
                    all == texts(pieces@),
                    address_views(r@) == addresses_of(all.take(i as int)),
                    forall|k: int| 0 <= k < r@.len() ==> (#[trigger] r@[k]).wf(),
                decreases pieces.len() - i,
            {
                proof {
                    assert(all.take(i + 1).drop_last() =~= all.take(i as int));
                    assert(all.take(i + 1).last() == pieces@[i as int]@);
                }
                let piece = text_of(&pieces[i]);
                let ghost before = r@;
                match EmailAddress::parse(piece.as_str()) {
                    Some(a) => {
                        r.push(a);
                        assert(address_views(r@) =~= address_views(before).push(a@));
                    },
                    None => {},
                }
                i += 1;
            }
            proof {
                assert(all.take(all.len() as int) =~= all);
            }
        },
        None => {},
    }
    r
}

/// Reads the address to reply to off the `Reply-To` header.
pub fn extract_reply_to(headers: &Vec<(String, String)>) -> (r: Option<EmailAddress>)
    ensures
        match r {
            Some(a) => a.wf() && match header_value(header_views(headers@), "reply-to"@) {
                Some(v) => parsed_address(v) == Some(a@),
                None => false,
            },
            None => match header_value(header_views(headers@), "reply-to"@) {
                Some(v) => parsed_address(v) is None,
                None => true,
            },
        },
{
    match get_header(headers, "reply-to") {
        Some(v) => EmailAddress::parse(v.as_str()),
        None => None,
    }
}

/// The subject line of a message; a placeholder where it has none.
pub open spec fn subject_line(headers: Seq<(Seq<char>, Seq<char>)>) -> Seq<char> {
    match header_value(headers, "subject"@) {
        Some(v) => v,
        None => "(no subject)"@,
    }
}

/// Reads the subject off the `Subject` header.
pub fn extract_subject(headers: &Vec<(String, String)>) -> (r: Subject)
    ensures
        r.describes(subject_line(header_views(headers@))),
{
    match get_header(headers, "subject") {
        Some(v) => Subject::parse(v.as_str()),
        None => Subject::parse("(no subject)"),
    }
}

/// The point in time that a date in the format of RFC 2822 names, as
/// `chrono::DateTime::parse_from_rfc2822` reads it: seconds since the start
/// of 1970 and nanoseconds since the last full second. None where the text
/// is no such date.
pub uninterp spec fn rfc2822_instant(s: Seq<char>) -> Option<(i64, u32)>;

/// `chrono::DateTime::parse_from_rfc2822`, with `DateTime::timestamp` and
/// `DateTime::timestamp_subsec_nanos` of what it returns. The result is a
/// function of the text alone and is only named.
#[verifier::external_body]
fn parse_rfc2822(s: &str) -> (r: Option<(i64, u32)>)
    ensures
        r == rfc2822_instant(s@),
{
    chrono::DateTime::parse_from_rfc2822(s).ok().map(
        |d| (d.timestamp(), d.timestamp_subsec_nanos()),
    )
}

/// `chrono::Utc::now`, with `DateTime::timestamp` and
/// `DateTime::timestamp_subsec_nanos` of what it returns: the time of the
/// call, of which nothing is stated. On a machine whose clock stands before
/// 1970 the call does not return.
#[verifier::external_body]
fn current_time() -> (r: Timestamp) {
    let t = chrono::Utc::now();
    Timestamp { seconds: t.timestamp(), nanos: t.timestamp_subsec_nanos() }
}

/// The date that the `Date` header names, where there is such a header and
/// it holds a date.
pub open spec fn stated_date(headers: Seq<(Seq<char>, Seq<char>)>) -> Option<Timestamp> {
    match header_value(headers, "date"@) {
        Some(v) => match rfc2822_instant(v) {
            Some(t) => Some(Timestamp { seconds: t.0, nanos: t.1 }),
            None => None,
        },
        None => None,
    }
}

/// The date of a message: that of its `Date` header, or `now` where it has
/// no such header or the header holds no date.
pub open spec fn date_of(headers: Seq<(Seq<char>, Seq<char>)>, now: Timestamp) -> Timestamp {
    match stated_date(headers) {
        Some(t) => t,
        None => now,
    }
}

/// The date that stands for what was read off the `Date` header: the date
/// read where there is one, otherwise `now`.
pub fn resolve_date(read: Option<(i64, u32)>, now: Timestamp) -> (r: Timestamp)
    ensures
        r == match read {
            Some(t) => Timestamp { seconds: t.0, nanos: t.1 },
            None => now,
        },
{
    match read {
        Some(t) => Timestamp { seconds: t.0, nanos: t.1 },
        None => now,
    }
}

/// Reads the date off the `Date` header, where it holds one.
pub fn read_date(headers: &Vec<(String, String)>) -> (r: Option<Timestamp>)
    ensures
        r == stated_date(header_views(headers@)),
{
    match get_header(headers, "date") {
        Some(v) => match parse_rfc2822(v.as_str()) {
            Some(t) => Some(Timestamp { seconds: t.0, nanos: t.1 }),
            None => None,
        },
        None => None,
    }
}

/// Reads the date off the `Date` header; `now` stands in where none can be
/// read.
pub fn extract_date(headers: &Vec<(String, String)>, now: Timestamp) -> (r: Timestamp)
    ensures
        r == date_of(header_views(headers@), now),
{
    match get_header(headers, "date") {
        Some(v) => resolve_date(parse_rfc2822(v.as_str()), now),
        None => now,
    }
}

/// The message IDs that the `References` header lists.
pub open spec fn references_of(headers: Seq<(Seq<char>, Seq<char>)>) -> Seq<Seq<char>> {
    match header_value(headers, "references"@) {
        Some(v) => split_whitespace(v),
        None => Seq::empty(),
    }
}

/// The message IDs as texts.
pub open spec fn id_views(v: Seq<MessageId>) -> Seq<Seq<char>> {
    v.map_values(|m: MessageId| m@)
}

impl ThreadInfo {
    /// This is the thread information of a message with the given headers
    /// and the given reply depth of its subject. The message is a reply
    /// where it names a parent or its subject has a reply prefix; the
    /// position of a reply is one more than the number of its references,
    /// and stops at `u32::MAX`.
    pub open spec fn describes(&self, headers: Seq<(Seq<char>, Seq<char>)>, depth: u32) -> bool {
        &&& match self.in_reply_to {
            Some(id) => header_value(headers, "in-reply-to"@) == Some(id@),
            None => header_value(headers, "in-reply-to"@) is None,
        }
        &&& id_views(self.references@) == references_of(headers)
        &&& self.is_reply == (header_value(headers, "in-reply-to"@) is Some || depth > 0)
        &&& self.thread_position == if self.is_reply {
            capped(references_of(headers).len() + 1)
        } else {
            0
        }
    }
}

/// Reads the thread information off the headers and the subject.
pub fn extract_thread_info(headers: &Vec<(String, String)>, subject: &Subject) -> (r: ThreadInfo)
    ensures
        r.describes(header_views(headers@), subject.reply_depth),
{
    let in_reply_to = match get_header(headers, "in-reply-to") {
        Some(v) => Some(MessageId::new(v.as_str())),
        None => None,
    };
    let mut references: Vec<MessageId> = Vec::new();
    assert(id_views(references@) =~= Seq::<Seq<char>>::empty());
    match get_header(headers, "references") {
        Some(v) => {
            let ids = words(&chars_of(v.as_str()));
            let mut i: usize = 0;
            while i < ids.len()
                invariant
                    i <= ids.len(),
                    id_views(references@) == texts(ids@).take(i as int),
                decreases ids.len() - i,
            {
                let ghost before = references@;
                let id = text_of(&ids[i]);
                references.push(MessageId::new(id.as_str()));
                assert(id_views(references@) =~= id_views(before).push(ids@[i as int]@));
                assert(texts(ids@).take(i + 1) =~= texts(ids@).take(i as int).push(
                    ids@[i as int]@,
                ));
                i += 1;
            }
            assert(texts(ids@).take(ids@.len() as int) =~= texts(ids@));
        },
        None => {},
    }
    let is_reply = in_reply_to.is_some() || subject.reply_depth > 0;
    let thread_position: u32 = if is_reply {
        if references.len() >= 0xFFFF_FFFF {
            u32::MAX
        } else {
            references.len() as u32 + 1
        }
    } else {
        0
    };
    assert(id_views(references@).len() == references@.len());
    ThreadInfo { in_reply_to, references, is_reply, thread_position }
}

/// The content types of the parts, lower-cased.
pub open spec fn lowered_types(parts: Seq<MimePartView>) -> Seq<Seq<char>> {
    parts.map_values(|p: MimePartView| lowercase(p.mimetype))
}

/// Text and HTML of a message that is a single part with the given
/// lower-cased content type and decoded text: the decoded text is the HTML
/// where the content type holds `text/html`, and the plain text otherwise.
pub open spec fn single_part(lower_type: Seq<char>, body: Option<Seq<char>>) -> (
    Seq<char>,
    Option<Seq<char>>,
) {
    match body {
        Some(b) => if contains(lower_type, "text/html"@) {
            (Seq::empty(), Some(b))
        } else {
            (b, None)
        },
        None => (Seq::empty(), None),
    }
}

/// Text and HTML after the part `part` with the given lower-cased content
/// type was looked at, where they were `acc` before. Only a leaf whose text
/// could be decoded counts: one of type `text/plain` gives the plain text
/// while there is none yet, and otherwise one of type `text/html` gives the
/// HTML while there is none yet.
pub open spec fn take_part(
    acc: (Seq<char>, Option<Seq<char>>),
    lower_type: Seq<char>,
    part: MimePartView,
) -> (Seq<char>, Option<Seq<char>>) {
    match part.body {
        Some(b) => if part.children != 0 {
            acc
        } else if contains(lower_type, "text/plain"@) && acc.0.len() == 0 {
            (b, acc.1)
        } else if contains(lower_type, "text/html"@) && acc.1 is None {
            (acc.0, Some(b))
        } else {
            acc
        },
        None => acc,
    }
}

/// Text and HTML that the parts give, each looked at in order; `types`
/// holds the lower-cased content type of each part.
pub open spec fn scan_parts(parts: Seq<MimePartView>, types: Seq<Seq<char>>) -> (
    Seq<char>,
    Option<Seq<char>>,
)
    decreases parts.len(),
{
    if parts.len() == 0 || types.len() != parts.len() {
        (Seq::empty(), None)
    } else {
        take_part(scan_parts(parts.drop_last(), types.drop_last()), types.last(), parts.last())
    }
}

/// Plain text and HTML of a message with the given parts, the first of
/// which is the message itself; `types` holds the lower-cased content type
/// of each part. A message that is a single part gives what that part holds;
/// of any other, the parts below the first are looked through.
pub open spec fn select_body(parts: Seq<MimePartView>, types: Seq<Seq<char>>) -> (
    Seq<char>,
    Option<Seq<char>>,
) {
    if parts.len() == 0 || types.len() != parts.len() {
        (Seq::empty(), None)
    } else if parts[0].children == 0 {
        single_part(types[0], parts[0].body)
    } else {
        scan_parts(parts.skip(1), types.skip(1))
    }
}

/// Plain text and HTML of a message with the given parts.
pub open spec fn body_parts(parts: Seq<MimePartView>) -> (Seq<char>, Option<Seq<char>>) {
    select_body(parts, lowered_types(parts))
}

/// The lower-cased content types of the parts.
pub fn lower_types(parts: &Vec<MimePart>) -> (r: Vec<String>)
    ensures
        name_views(r@) == lowered_types(part_views(parts@)),
{
    let mut r: Vec<String> = Vec::new();
    let mut i: usize = 0;
    while i < parts.len()
        invariant
            i <= parts.len(),
            r@.len() == i,
            forall|k: int| 0 <= k < i ==> (#[trigger] r@[k])@ == lowercase(parts@[k].mimetype@),
        decreases parts.len() - i,
    {
        r.push(to_lowercase(parts[i].mimetype.as_str()));
        i += 1;
    }
    assert(name_views(r@) =~= lowered_types(part_views(parts@)));
    r
}

/// Looks through the parts below the first for plain text and HTML.
fn extract_body_recursive(
    parts: &Vec<MimePart>,
    types: &Vec<String>,
    text: &mut String,
    html: &mut Option<String>,
)
    requires
        parts.len() > 0,
        types.len() == parts.len(),
        old(text)@.len() == 0,
        *old(html) is None,
    ensures
        (final(text)@, opt_text(*final(html))) == scan_parts(
            part_views(parts@).skip(1),
            name_views(types@).skip(1),
        ),
{
    let plain = chars_of("text/plain");
    let markup = chars_of("text/html");
    let ghost rest = part_views(parts@).skip(1);
    let ghost kinds = name_views(types@).skip(1);
    let mut i: usize = 1;
    proof {
        assert(rest.take(0) =~= Seq::<MimePartView>::empty());
    }
    while i < parts.len()
        invariant
            1 <= i <= parts.len(),
            types.len() == parts.len(),
            plain@ == "text/plain"@,
            markup@ == "text/html"@,
            rest == part_views(parts@).skip(1),
            kinds == name_views(types@).skip(1),
            (text@, opt_text(*html)) == scan_parts(rest.take(i - 1), kinds.take(i - 1)),
        decreases parts.len() - i,
    {
        let part = &parts[i];
        proof {
            assert(rest.take(i as int).drop_last() =~= rest.take(i - 1));
            assert(kinds.take(i as int).drop_last() =~= kinds.take(i - 1));
            assert(rest.take(i as int).last() == parts@[i as int]@);
            assert(kinds.take(i as int).last() == types@[i as int]@);
        }
        if part.children == 0 {
            match &part.body {
                Some(b) => {
                    let content_type = chars_of(types[i].as_str());
                    if contains_text(&content_type, &plain) && text.as_str().is_empty() {
                        *text = b.clone();
                    } else if contains_text(&content_type, &markup) && html.is_none() {
                        *html = Some(b.clone());
                    }
                },
                None => {},
            }
        }
        i += 1;
    }
    proof {
        assert(rest.take(rest.len() as int) =~= rest);
        assert(kinds.take(kinds.len() as int) =~= kinds);
    }
}

/// Picks plain text and HTML out of the parts of a message, of which
/// `types` holds the lower-cased content types, one for each part; where it
/// does not, nothing is picked.
pub fn select_body_parts(parts: &Vec<MimePart>, types: &Vec<String>) -> (r: (
    String,
    Option<String>,
))
    ensures
        (r.0@, opt_text(r.1)) == select_body(part_views(parts@), name_views(types@)),
{
    let mut text = String::new();
    let mut html: Option<String> = None;
    assert(name_views(types@).len() == types@.len());
    if parts.len() == 0 || types.len() != parts.len() {
        return (text, html);
    }
    let root = &parts[0];
    assert(part_views(parts@)[0] == root@);
    assert(name_views(types@)[0] == types@[0]@);
    if root.children == 0 {
        match &root.body {
            Some(b) => {
                let content_type = chars_of(types[0].as_str());
                if contains_text(&content_type, &chars_of("text/html")) {
                    html = Some(b.clone());
                } else {
                    text = b.clone();
                }
            },
            None => {},
        }
    } else {
        extract_body_recursive(parts, types, &mut text, &mut html);
    }
    (text, html)
}

/// Picks plain text and HTML out of the parts of a message.
pub fn extract_body_parts(parts: &Vec<MimePart>) -> (r: (String, Option<String>))
    ensures
        (r.0@, opt_text(r.1)) == body_parts(part_views(parts@)),
{
    let types = lower_types(parts);
    assert(name_views(types@).len() == types@.len());
    assert(lowered_types(part_views(parts@)).len() == parts@.len());
    select_body_parts(parts, &types)
}

impl Body {
    /// This is the body of a message with the given parts: text and HTML
    /// are those of the parts, and the rest is derived from them.
    pub open spec fn describes(&self, parts: Seq<MimePartView>) -> bool {
        &&& self.text@ == body_parts(parts).0
        &&& opt_text(self.html) == body_parts(parts).1
        &&& self.language is None
        &&& !self.has_attachments
        &&& self.wf()
    }
}

/// Builds the body of a message from its parts.
pub fn extract_body(parts: &Vec<MimePart>) -> (r: Body)
    ensures
        r.describes(part_views(parts@)),
{
    let (text, html) = extract_body_parts(parts);
    let text_from_html = if text.as_str().is_empty() {
        match &html {
            Some(h) => Some(strip_html(h.as_str())),
            None => None,
        }
    } else {
        None
    };
    let mut body = Body {
        word_count: 0,
        char_count: 0,
        line_count: 0,
        text,
        html,
        text_from_html,
        language: None,
        has_attachments: false,
        signature: None,
        content_without_signature: String::new(),
    };
    let ghost best = body.best();
    let best_text = body.best_text();
    let (content_without_signature, signature) = separate_signature(best_text);
    let v = chars_of(best_text);
    let all_words = words(&v);
    assert(texts(all_words@).len() == all_words@.len());
    let word_count = all_words.len();
    let char_count = best_text.as_bytes().len();
    let pieces = split_on(&v, '\n');
    assert(texts(pieces@).len() == pieces@.len());
    assert(pieces@.len() > 0) by {
        crate::body::lemma_split_nonempty(v@, '\n');
    }
    assert(texts(pieces@).last() == pieces@[pieces@.len() - 1]@);
    let line_count = if pieces[pieces.len() - 1].len() == 0 {
        pieces.len() - 1
    } else {
        pieces.len()
    };
    body.word_count = word_count;
    body.char_count = char_count;
    body.line_count = line_count;
    body.signature = signature;
    body.content_without_signature = content_without_signature;
    body
}


/// The sender that the `From` header names.
pub open spec fn sender_of(headers: Seq<(Seq<char>, Seq<char>)>) -> Option<EmailAddressView> {
    match header_value(headers, "from"@) {
        Some(v) => parsed_address(v),
        None => None,
    }
}

/// `err` is the error that a message with the given headers is refused
/// with: that the `From` header is missing, or that it holds no address.
pub open spec fn refuses_sender(err: ParseError, headers: Seq<(Seq<char>, Seq<char>)>) -> bool {
    match err {
        ParseError::MissingHeader(h) => h@ == "From"@ && header_value(headers, "from"@) is None,
        ParseError::InvalidHeader { header, details } => header@ == "From"@ && match header_value(
            headers,
            "from"@,
        ) {
            Some(v) => parsed_address(v) is None && details@ == "Could not parse: "@ + v,
            None => false,
        },
        _ => false,
    }
}

impl Email {
    /// This is the email that the decoded message `m` with the identifier
    /// `uid` stands for, where `now` is the date of a message that brings
    /// none.
    pub open spec fn describes(&self, uid: u32, m: MimeMessageView, now: Timestamp) -> bool {
        let best = self.body.best();
        &&& self.uid == uid
        &&& self.message_id@ == message_id_of(m.headers, uid)
        &&& sender_of(m.headers) == Some(self.from@)
        &&& self.from.wf()
        &&& address_views(self.to@) == recipients_of(m.headers, "to"@)
        &&& address_views(self.cc@) == recipients_of(m.headers, "cc"@)
        &&& address_views(self.bcc@) == recipients_of(m.headers, "bcc"@)
        &&& match self.reply_to {
            Some(a) => a.wf() && match header_value(m.headers, "reply-to"@) {
                Some(v) => parsed_address(v) == Some(a@),
                None => false,
            },
            None => match header_value(m.headers, "reply-to"@) {
                Some(v) => parsed_address(v) is None,
                None => true,
            },
        }
        &&& self.subject.describes(subject_line(m.headers))
        &&& self.body.describes(m.parts)
        &&& self.date == date_of(m.headers, now)
        &&& self.headers.describes(m.headers)
        &&& self.thread.describes(m.headers, self.subject.reply_depth)
        &&& matches_sound(best)
        &&& self.extracted.holds(
            best,
            regex_spans(EMAIL_PATTERN@, best),
            regex_spans(PHONE_PATTERN@, best),
            regex_spans(URL_PATTERN@, best),
            regex_spans(AMOUNT_PATTERN@, best),
            regex_group_spans(TWITTER_PATTERN@, 1, best),
            regex_group_spans(LINKEDIN_PATTERN@, 1, best),
        )
        &&& self.metadata.describes(
            findings_of(self.from, self.headers, self.subject, self.body, self.extracted),
        )
    }
}

/// Builds the structured email of a decoded message. The message is refused
/// exactly when its `From` header is missing or holds no address.
pub fn parse_message(uid: u32, message: &MimeMessage, now: Timestamp) -> (r: Result<
    Email,
    ParseError,
>)
    ensures
        match r {
            Ok(e) => e.describes(uid, message@, now),
            Err(err) => sender_of(message@.headers) is None && refuses_sender(
                err,
                message@.headers,
            ),
        },
{
    let fields = &message.headers;
    let headers = match parse_headers(fields) {
        Ok(h) => h,
        Err(e) => {
            return Err(e);
        },
    };
    let message_id = extract_message_id(fields, uid);
    let from = match extract_from(fields) {
        Ok(a) => a,
        Err(e) => {
            return Err(e);
        },
    };
    let to = extract_addresses(fields, "to");
    let cc = extract_addresses(fields, "cc");
    let bcc = extract_addresses(fields, "bcc");
    let reply_to = extract_reply_to(fields);
    let subject = extract_subject(fields);
    let date = extract_date(fields, now);
    let thread = extract_thread_info(fields, &subject);
    let body = extract_body(&message.parts);
    let extracted = ExtractedEntities::extract(body.best_text());
    let metadata = analyze_metadata(&from, &headers, &subject, &body, &extracted);
    Ok(
        Email {
            message_id,
            uid,
            from,
            to,
            cc,
            bcc,
            reply_to,
            subject,
            body,
            date,
            headers,
            thread,
            extracted,
            metadata,
        },
    )
}

/// Parses the raw bytes of a message into a structured email. A message
/// whose structure cannot be decoded is refused with the decoder's words;
/// a decoded one is refused exactly when its `From` header is missing or
/// holds no address. The date of a message that brings none is the time of
/// the call.
pub fn parse_email(uid: u32, raw: &[u8]) -> (r: Result<Email, ParseError>)
    ensures
        match decoded_mime(raw@) {
            Ok(m) => match r {
                Ok(e) => exists|now: Timestamp| #[trigger] e.describes(uid, m, now),
                Err(err) => sender_of(m.headers) is None && refuses_sender(err, m.headers),
            },
            Err(d) => match r {
                Err(ParseError::Structure(s)) => s@ == d,
                _ => false,
            },
        },
{
    match decode_mime(raw) {
        Ok(message) => {
            let now = match read_date(&message.headers) {
                Some(t) => t,
                None => current_time(),
            };
            parse_message(uid, &message, now)
        },
        Err(d) => Err(ParseError::Structure(d)),
    }
}

} // verus!
