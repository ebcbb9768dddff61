//! Core types of a parsed email.

use crate::address::EmailAddress;
use crate::body::Body;
use crate::extracted::ExtractedEntities;
use crate::subject::Subject;
use crate::text::{chars_of, trim, trimmed};
use vstd::prelude::*;
use vstd::string::*;

verus! {

/// Message ID wrapper type.
#[derive(Debug, Clone, PartialEq, Eq, Hash)]
pub struct MessageId(pub String);

impl View for MessageId {
    type V = Seq<char>;

    open spec fn view(&self) -> Seq<char> {
        self.0@
    }
}

/// The character of a decimal digit.
pub open spec fn digit_char(d: nat) -> char {
    ((d + 48) as u8) as char
}

/// A number written in decimal, without leading zeros.
pub open spec fn decimal(n: nat) -> Seq<char>
    decreases n,
{
    if n < 10 {
        seq![digit_char(n)]
    } else {
        decimal(n / 10).push(digit_char(n % 10))
    }
}

/// The message ID made up for a message that brings none.
pub open spec fn synthetic_id(uid: u32) -> Seq<char> {
    "<synthetic-"@ + decimal(uid as nat) + "@local>"@
}

/// Appends `n` in decimal to `out`.
fn push_decimal(n: u32, out: &mut String)
    ensures
        final(out)@ == old(out)@ + decimal(n as nat),
    decreases n,
{
    let ghost before = out@;
    if n >= 10 {
        push_decimal(n / 10, out);
    }
    let d: u8 = (n % 10) as u8;
    out.push((d + 48) as char);
    proof {
        if n >= 10 {
            assert(before + decimal(n as nat / 10).push(digit_char(n as nat % 10)) =~= (before
                + decimal(n as nat / 10)).push(digit_char(n as nat % 10)));
        } else {
            assert(before + seq![digit_char(n as nat)] =~= before.push(digit_char(n as nat)));
        }
    }
}

impl MessageId {
    /// A message ID with the given text.
    pub fn new(id: &str) -> (r: MessageId)
        ensures
            r@ == id@,
    {
        MessageId(id.to_owned())
    }

    /// Generates a synthetic message ID for the message with the given UID.
    pub fn synthetic(uid: u32) -> (r: MessageId)
        ensures
            r@ == synthetic_id(uid),
    {
        let mut s = "<synthetic-".to_owned();
        push_decimal(uid, &mut s);
        MessageId(s.concat("@local>"))
    }

    /// The text of the message ID.
    pub fn as_str(&self) -> (r: &str)
        ensures
            r@ == self@,
    {
        self.0.as_str()
    }

    /// The text of the message ID.
    pub fn to_string(&self) -> (r: String)
        ensures
            r@ == self@,
    {
        self.0.clone()
    }
}

/// Email priority level.
#[derive(Debug, Clone, Copy, PartialEq, Eq, Structural)]
pub enum Priority {
    Highest,
    High,
    Normal,
    Low,
    Lowest,
}

/// The priority that the value of a priority header declares: `1` is the
/// highest, `2` high, `4` low, `5` the lowest; any other value is normal.
pub open spec fn priority_of(value: Seq<char>) -> Priority {
    let t = trim(value);
    if t == seq!['1'] {
        Priority::Highest
    } else if t == seq!['2'] {
        Priority::High
    } else if t == seq!['4'] {
        Priority::Low
    } else if t == seq!['5'] {
        Priority::Lowest
    } else {
        Priority::Normal
    }
}

impl Priority {
    /// Reads the priority off the value of a priority header.
    pub fn from_header(value: &str) -> (r: Priority)
        ensures
            r == priority_of(value@),
    {
        let t = trimmed(&chars_of(value));
        if t.len() != 1 {
            return Priority::Normal;
        }
        assert(t@ =~= seq![t@[0]]);
        let c = t[0];
        if c == '1' {
            Priority::Highest
        } else if c == '2' {
            Priority::High
        } else if c == '4' {
            Priority::Low
        } else if c == '5' {
            Priority::Lowest
        } else {
            Priority::Normal
        }
    }
}

/// Authentication result status.
#[derive(Debug, Clone, PartialEq, Eq)]
pub enum AuthResult {
    Pass,
    Fail,
    Neutral,
    /// The check gave no result.
    NoResult,
    Unknown(String),
}

/// Email authentication results.
#[derive(Debug, Clone)]
pub struct AuthenticationResults {
    /// SPF result.
    pub spf: Option<AuthResult>,
    /// DKIM result.
    pub dkim: Option<AuthResult>,
    /// DMARC result.
    pub dmarc: Option<AuthResult>,
}

impl Default for AuthenticationResults {
    fn default() -> (r: AuthenticationResults)
        ensures
            r.spf is None,
            r.dkim is None,
            r.dmarc is None,
    {
        AuthenticationResults { spf: None, dkim: None, dmarc: None }
    }
}

/// Email headers.
#[derive(Debug, Clone)]
pub struct Headers {
    /// All headers as pairs of lower-cased name and value.
    pub all: Vec<(String, String)>,
    /// Content-Type.
    pub content_type: Option<String>,
    /// X-Mailer or User-Agent.
    pub mailer: Option<String>,
    /// X-Priority.
    pub priority: Option<Priority>,
    /// List-Unsubscribe header (newsletters).
    pub list_unsubscribe: Option<String>,
    /// Authentication results.
    pub authentication: AuthenticationResults,
    /// Custom headers (X-*), under their names as given.
    pub custom: Vec<(String, String)>,
}

/// Thread information.
#[derive(Debug, Clone)]
pub struct ThreadInfo {
    /// In-Reply-To header (message ID of parent).
    pub in_reply_to: Option<MessageId>,
    /// References header (list of message IDs in thread).
    pub references: Vec<MessageId>,
    /// Is this a reply?
    pub is_reply: bool,
    /// Estimated position in thread.
    pub thread_position: u32,
}

/// Spam indicator.
#[derive(Debug, Clone)]
pub struct SpamIndicator {
    pub indicator: String,
    /// Weight of the indicator in hundredths.
    pub weight: u32,
}

/// Urgency level.
#[derive(Debug, Clone, Copy, PartialEq, Eq, Structural)]
pub enum Urgency {
    Critical,
    High,
    Normal,
    Low,
}

/// Category hint for email classification.
#[derive(Debug, Clone)]
pub struct CategoryHint {
    pub category: String,
    /// Confidence in hundredths.
    pub confidence: u32,
    pub reason: String,
}

/// Sentiment analysis result.
#[derive(Debug, Clone, Copy, PartialEq, Eq, Structural)]
pub enum Sentiment {
    Positive,
    Negative,
    Neutral,
    Mixed,
}

impl Default for Sentiment {
    fn default() -> (r: Sentiment)
        ensures
            r == Sentiment::Neutral,
    {
        Sentiment::Neutral
    }
}

/// Email metadata and analysis results.
#[derive(Debug, Clone)]
pub struct EmailMetadata {
    /// Spam score in hundredths: 0 is clean, 100 is spam.
    pub spam_score: u32,
    /// List of spam indicators found.
    pub spam_indicators: Vec<SpamIndicator>,
    /// Urgency indicators.
    pub urgency: Urgency,
    /// Email category hints.
    pub category_hints: Vec<CategoryHint>,
    /// Is this likely automated/bulk mail?
    pub is_automated: bool,
    /// Is this from a mailing list?
    pub is_mailing_list: bool,
    /// Sentiment hints (positive, negative, neutral).
    pub sentiment: Sentiment,
}

/// A point in time: seconds since the start of 1970 in UTC, leap seconds not
/// counted, and the nanoseconds since the last full second.
#[derive(Debug, Clone, Copy, PartialEq, Eq, Structural)]
pub struct Timestamp {
    pub seconds: i64,
    pub nanos: u32,
}

/// A fully parsed email with extracted entities and metadata.
#[derive(Debug, Clone)]
pub struct Email {
    /// Unique message ID from headers.
    pub message_id: MessageId,
    /// IMAP UID.
    pub uid: u32,
    /// Sender address.
    pub from: EmailAddress,
    /// Primary recipients.
    pub to: Vec<EmailAddress>,
    /// CC recipients.
    pub cc: Vec<EmailAddress>,
    /// BCC recipients (if available).
    pub bcc: Vec<EmailAddress>,
    /// Reply-To address.
    pub reply_to: Option<EmailAddress>,
    /// Email subject.
    pub subject: Subject,
    /// Email body content.
    pub body: Body,
    /// Date sent/received.
    pub date: Timestamp,
    /// Email headers.
    pub headers: Headers,
    /// Thread information.
    pub thread: ThreadInfo,
    /// Extracted entities from the email content.
    pub extracted: ExtractedEntities,
    /// Email metadata and analysis.
    pub metadata: EmailMetadata,
}

} // verus!
