//! The decoded view of a message that the MIME decoder hands over: the
//! header fields in their order, and the body parts with their content type
//! and decoded text.

use crate::text::opt_text;
use vstd::prelude::*;
use vstd::string::*;

verus! {

/// One part of a message.
#[derive(Debug, Clone)]
pub struct MimePart {
    /// The content type of the part, such as `text/plain`.
    pub mimetype: String,
    /// The decoded text of the part, where it could be decoded.
    pub body: Option<String>,
    /// The number of parts directly below this one; 0 for a leaf.
    pub children: usize,
}

/// A part as texts.
pub struct MimePartView {
    pub mimetype: Seq<char>,
    pub body: Option<Seq<char>>,
    pub children: usize,
}

impl View for MimePart {
    type V = MimePartView;

    open spec fn view(&self) -> MimePartView {
        MimePartView { mimetype: self.mimetype@, body: opt_text(self.body), children: self.children }
    }
}

/// A decoded message.
#[derive(Debug, Clone)]
pub struct MimeMessage {
    /// The header fields as pairs of name and value, in their order.
    pub headers: Vec<(String, String)>,
    /// The parts of the message, depth first, each before the parts below
    /// it; the first is the message itself.
    pub parts: Vec<MimePart>,
}

/// A decoded message as texts.
pub struct MimeMessageView {
    pub headers: Seq<(Seq<char>, Seq<char>)>,
    pub parts: Seq<MimePartView>,
}

/// The header fields as texts.
pub open spec fn header_views(headers: Seq<(String, String)>) -> Seq<(Seq<char>, Seq<char>)> {
    headers.map_values(|h: (String, String)| (h.0@, h.1@))
}

/// The parts as texts.
pub open spec fn part_views(parts: Seq<MimePart>) -> Seq<MimePartView> {
    parts.map_values(|p: MimePart| p@)
}

impl View for MimeMessage {
    type V = MimeMessageView;

    open spec fn view(&self) -> MimeMessageView {
        MimeMessageView { headers: header_views(self.headers@), parts: part_views(self.parts@) }
    }
}

/// What `mailparse::parse_mail` makes of the raw bytes of a message: the
/// decoded message, or the description of what is wrong with its structure.
pub uninterp spec fn decoded_mime(raw: Seq<u8>) -> Result<MimeMessageView, Seq<char>>;

/// `mailparse::parse_mail`, and of what it returns: `MailHeader::get_key`
/// and `MailHeader::get_value` of each header, and of each part that
/// `ParsedMail::parts` yields the content type, `ParsedMail::get_body` and
/// the number of subparts; of an error its description. The result is a
/// function of the bytes alone and is only named.
#[verifier::external_body]
pub(crate) fn decode_mime(raw: &[u8]) -> (r: Result<MimeMessage, String>)
    ensures
        match r {
            Ok(m) => decoded_mime(raw@) == Ok::<MimeMessageView, Seq<char>>(m@),
            Err(d) => decoded_mime(raw@) == Err::<MimeMessageView, Seq<char>>(d@),
        },
{
    let parsed = mailparse::parse_mail(raw).map_err(|e| e.to_string())?;
    Ok(
        MimeMessage {
            headers: parsed.headers.iter().map(|h| (h.get_key(), h.get_value())).collect(),
            parts: parsed.parts().map(
                |p|
                    MimePart {
                        mimetype: p.ctype.mimetype.clone(),
                        body: p.get_body().ok(),
                        children: p.subparts.len(),
                    },
            ).collect(),
        },
    )
}

} // verus!
