//! Intelligent email parsing with structured type extraction.
//!
//! A decoded message (header fields and body parts) is turned into a
//! structured record: normalized addresses, subject, thread and body fields,
//! the entities found in its text, and heuristic metadata.

pub mod address;
pub mod body;
pub mod classify;
pub mod error;
pub mod extracted;
pub mod headers;
pub mod html;
pub mod metadata;
pub mod mime;
pub mod parser;
pub mod span;
pub mod subject;
pub mod text;
pub mod types;

pub use address::{EmailAddress, PersonName};
pub use body::{separate_signature, Body};
pub use classify::{
    detect_phone_type, detect_url_type, extract_domain, is_tracking_url, normalize_phone,
    PhoneType, UrlType,
};
pub use error::ParseError;
pub use extracted::{
    parse_amount, ExtractedEmail, ExtractedEntities, ExtractedUrl, MonetaryAmount, PhoneNumber,
    SocialHandle, SocialPlatform,
};
pub use html::strip_html;
pub use metadata::analyze_metadata;
pub use mime::{MimeMessage, MimePart};
pub use parser::{parse_email, parse_message};
pub use span::{snap_to_char_boundary, snap_to_next_char_boundary};
pub use subject::Subject;
pub use types::{
    AuthResult, AuthenticationResults, CategoryHint, Email, EmailMetadata, Headers, MessageId,
    Priority, Sentiment, SpamIndicator, ThreadInfo, Timestamp, Urgency,
};
