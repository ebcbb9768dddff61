//! Heuristic metadata of a message: spam score, urgency, category hints and
//! sentiment, drawn from what the other components found.

use crate::address::{noreply_marked, EmailAddress};
use crate::body::Body;
use crate::extracted::{ExtractedEntities, ExtractedUrl};
use crate::subject::Subject;
use crate::text::{chars_of, contains, contains_text, lowercase, to_lowercase};
use crate::types::{
    CategoryHint, EmailMetadata, Headers, Priority, Sentiment, SpamIndicator, Urgency,
};
use vstd::prelude::*;
use vstd::string::*;

verus! {

/// Weight of a sender that takes no replies, in hundredths.
pub const NOREPLY_WEIGHT: u32 = 10;

/// Weight of more than three tracking URLs, in hundredths.
pub const TRACKING_WEIGHT: u32 = 20;

/// Weight of urgency language in the subject, in hundredths.
pub const URGENCY_WEIGHT: u32 = 15;

/// The highest spam score, in hundredths.
pub const MAX_SCORE: u32 = 100;

/// What the analysis reads: the facts that the other components found, and
/// the lower-cased subject and body text.
pub struct Findings {
    /// The sender takes no replies.
    pub noreply: bool,
    /// Number of tracking URLs among the extracted URLs.
    pub tracking_urls: nat,
    /// The lower-cased subject line.
    pub lower_subject: Seq<char>,
    /// The declared priority.
    pub priority: Option<Priority>,
    /// A List-Unsubscribe header is there.
    pub list_unsubscribe: bool,
    /// A mailer or user agent header is there.
    pub mailer: bool,
    /// Phone numbers were extracted.
    pub phones: bool,
    /// Companies were extracted.
    pub companies: bool,
    /// The lower-cased best text of the body.
    pub lower_text: Seq<char>,
}

/// The lower-cased subject speaks the language of spam.
pub open spec fn spam_language(lower_subject: Seq<char>) -> bool {
    ||| contains(lower_subject, "urgent"@)
    ||| contains(lower_subject, "act now"@)
    ||| contains(lower_subject, "limited time"@)
}

/// The lower-cased subject asks for haste.
pub open spec fn urgent_language(lower_subject: Seq<char>) -> bool {
    ||| contains(lower_subject, "urgent"@)
    ||| contains(lower_subject, "asap"@)
    ||| contains(lower_subject, "emergency"@)
}

/// The spam indicators that apply, as pairs of name and weight, in the
/// order in which they are looked for.
pub open spec fn indicators_of(f: Findings) -> Seq<(Seq<char>, u32)> {
    (if f.noreply {
        seq![("noreply_sender"@, NOREPLY_WEIGHT)]
    } else {
        Seq::empty()
    }) + (if f.tracking_urls > 3 {
        seq![("excessive_tracking"@, TRACKING_WEIGHT)]
    } else {
        Seq::empty()
    }) + (if spam_language(f.lower_subject) {
        seq![("urgency_language"@, URGENCY_WEIGHT)]
    } else {
        Seq::empty()
    })
}

/// The spam score: the weights of the indicators that apply, added up, and
/// not above 100.
pub open spec fn spam_score_of(f: Findings) -> nat {
    let sum = (if f.noreply {
        NOREPLY_WEIGHT as nat
    } else {
        0
    }) + (if f.tracking_urls > 3 {
        TRACKING_WEIGHT as nat
    } else {
        0
    }) + (if spam_language(f.lower_subject) {
        URGENCY_WEIGHT as nat
    } else {
        0
    });
    if sum > MAX_SCORE {
        MAX_SCORE as nat
    } else {
        sum
    }
}

/// The urgency: high where the subject asks for haste or the declared
/// priority is high or highest; otherwise normal.
pub open spec fn urgency_of(f: Findings) -> Urgency {
    if urgent_language(f.lower_subject) || f.priority == Some(Priority::High) || f.priority
        == Some(Priority::Highest) {
        Urgency::High
    } else {
        Urgency::Normal
    }
}

/// The category hints that apply, as triples of category, confidence in
/// hundredths and reason, in the order in which they are looked for.
pub open spec fn hints_of(f: Findings) -> Seq<(Seq<char>, u32, Seq<char>)> {
    (if f.list_unsubscribe {
        seq![("newsletter"@, 90u32, "Has List-Unsubscribe header"@)]
    } else {
        Seq::empty()
    }) + (if f.noreply {
        seq![("automated"@, 80u32, "From noreply address"@)]
    } else {
        Seq::empty()
    }) + (if f.phones && f.companies {
        seq![("lead"@, 60u32, "Contains contact information"@)]
    } else {
        Seq::empty()
    })
}

/// The sentiment: positive where the lower-cased text holds a word of
/// thanks or praise; else negative where it holds a word of complaint; else
/// neutral.
pub open spec fn sentiment_of(lower_text: Seq<char>) -> Sentiment {
    if contains(lower_text, "thank"@) || contains(lower_text, "appreciate"@) || contains(
        lower_text,
        "great"@,
    ) || contains(lower_text, "excellent"@) {
        Sentiment::Positive
    } else if contains(lower_text, "complaint"@) || contains(lower_text, "frustrated"@)
        || contains(lower_text, "disappointed"@) || contains(lower_text, "problem"@) {
        Sentiment::Negative
    } else {
        Sentiment::Neutral
    }
}

/// The indicators as pairs of name and weight.
pub open spec fn indicator_views(v: Seq<SpamIndicator>) -> Seq<(Seq<char>, u32)> {
    v.map_values(|i: SpamIndicator| (i.indicator@, i.weight))
}

/// The hints as triples of category, confidence and reason.
pub open spec fn hint_views(v: Seq<CategoryHint>) -> Seq<(Seq<char>, u32, Seq<char>)> {
    v.map_values(|h: CategoryHint| (h.category@, h.confidence, h.reason@))
}

impl EmailMetadata {
    /// This is the metadata that the findings give.
    pub open spec fn describes(&self, f: Findings) -> bool {
        &&& self.spam_score == spam_score_of(f)
        &&& indicator_views(self.spam_indicators@) == indicators_of(f)
        &&& self.urgency == urgency_of(f)
        &&& hint_views(self.category_hints@) == hints_of(f)
        &&& self.is_automated == (f.noreply || f.mailer)
        &&& self.is_mailing_list == f.list_unsubscribe
        &&& self.sentiment == sentiment_of(f.lower_text)
    }
}

/// Number of tracking URLs among `urls`.
pub open spec fn tracking_count(urls: Seq<ExtractedUrl>) -> nat
    decreases urls.len(),
{
    if urls.len() == 0 {
        0
    } else {
        tracking_count(urls.drop_last()) + if urls.last().is_tracking {
            1nat
        } else {
            0nat
        }
    }
}

/// Counts the tracking URLs among `urls`.
pub fn count_tracking(urls: &Vec<ExtractedUrl>) -> (n: usize)
    ensures
        n == tracking_count(urls@),
{
    let mut n: usize = 0;
    let mut i: usize = 0;
    proof {
        assert(urls@.take(0) =~= Seq::<ExtractedUrl>::empty());
    }
    while i < urls.len()
        invariant
            i <= urls.len(),
            n <= i,
            n == tracking_count(urls@.take(i as int)),
        decreases urls.len() - i,
    {
        proof {
            assert(urls@.take(i + 1).drop_last() =~= urls@.take(i as int));
            assert(urls@.take(i + 1).last() == urls@[i as int]);
        }
        if urls[i].is_tracking {
            n += 1;
        }
        i += 1;
    }
    proof {
        assert(urls@.take(urls@.len() as int) =~= urls@);
    }
    n
}

fn is_high(priority: Option<Priority>) -> (b: bool)
    ensures
        b == (priority == Some(Priority::High) || priority == Some(Priority::Highest)),
{
    match priority {
        Some(Priority::High) => true,
        Some(Priority::Highest) => true,
        _ => false,
    }
}

/// Tells the sentiment of a lower-cased text.
pub fn detect_sentiment(lower_text: &str) -> (r: Sentiment)
    ensures
        r == sentiment_of(lower_text@),
{
    let t = chars_of(lower_text);
    if contains_text(&t, &chars_of("thank")) || contains_text(&t, &chars_of("appreciate"))
        || contains_text(&t, &chars_of("great")) || contains_text(&t, &chars_of("excellent")) {
        Sentiment::Positive
    } else if contains_text(&t, &chars_of("complaint")) || contains_text(
        &t,
        &chars_of("frustrated"),
    ) || contains_text(&t, &chars_of("disappointed")) || contains_text(&t, &chars_of("problem")) {
        Sentiment::Negative
    } else {
        Sentiment::Neutral
    }
}

/// Draws the metadata from the findings of the other components.
pub fn assess(
    noreply: bool,
    tracking_urls: usize,
    lower_subject: &str,
    priority: Option<Priority>,
    list_unsubscribe: bool,
    mailer: bool,
    phones: bool,
    companies: bool,
    lower_text: &str,
) -> (r: EmailMetadata)
    ensures
        r.describes(
            Findings {
                noreply,
                tracking_urls: tracking_urls as nat,
                lower_subject: lower_subject@,
                priority,
                list_unsubscribe,
                mailer,
                phones,
                companies,
                lower_text: lower_text@,
            },
        ),
        r.spam_score <= MAX_SCORE,
{
    let ghost f = Findings {
        noreply,
        tracking_urls: tracking_urls as nat,
        lower_subject: lower_subject@,
        priority,
        list_unsubscribe,
        mailer,
        phones,
        companies,
        lower_text: lower_text@,
    };
    let subject = chars_of(lower_subject);
    let mut spam_indicators: Vec<SpamIndicator> = Vec::new();
    let mut spam_score: u32 = 0;
    assert(indicator_views(spam_indicators@) =~= Seq::<(Seq<char>, u32)>::empty());

    if noreply {
        spam_indicators.push(
            SpamIndicator { indicator: "noreply_sender".to_owned(), weight: NOREPLY_WEIGHT },
        );
        spam_score += NOREPLY_WEIGHT;
    }
    let ghost first = indicator_views(spam_indicators@);
    assert(first =~= if noreply {
        seq![("noreply_sender"@, NOREPLY_WEIGHT)]
    } else {
        Seq::empty()
    });

    if tracking_urls > 3 {
        spam_indicators.push(
            SpamIndicator { indicator: "excessive_tracking".to_owned(), weight: TRACKING_WEIGHT },
        );
        spam_score += TRACKING_WEIGHT;
    }
    let ghost second = indicator_views(spam_indicators@);
    assert(second =~= first + if tracking_urls > 3 {
        seq![("excessive_tracking"@, TRACKING_WEIGHT)]
    } else {
        Seq::empty()
    });

    let urgent = contains_text(&subject, &chars_of("urgent"));
    if urgent || contains_text(&subject, &chars_of("act now")) || contains_text(
        &subject,
        &chars_of("limited time"),
    ) {
        spam_indicators.push(
            SpamIndicator { indicator: "urgency_language".to_owned(), weight: URGENCY_WEIGHT },
        );
        spam_score += URGENCY_WEIGHT;
    }
    assert(indicator_views(spam_indicators@) =~= second + if spam_language(lower_subject@) {
        seq![("urgency_language"@, URGENCY_WEIGHT)]
    } else {
        Seq::empty()
    });

    let urgency = if urgent || contains_text(&subject, &chars_of("asap")) || contains_text(
        &subject,
        &chars_of("emergency"),
    ) || is_high(priority) {
        Urgency::High
    } else {
        Urgency::Normal
    };

    let mut category_hints: Vec<CategoryHint> = Vec::new();
    assert(hint_views(category_hints@) =~= Seq::<(Seq<char>, u32, Seq<char>)>::empty());
    if list_unsubscribe {
        category_hints.push(
            CategoryHint {
                category: "newsletter".to_owned(),
                confidence: 90,
                reason: "Has List-Unsubscribe header".to_owned(),
            },
        );
    }
    let ghost hints1 = hint_views(category_hints@);
    assert(hints1 =~= if list_unsubscribe {
        seq![("newsletter"@, 90u32, "Has List-Unsubscribe header"@)]
    } else {
        Seq::empty()
    });
    if noreply {
        category_hints.push(
            CategoryHint {
                category: "automated".to_owned(),
                confidence: 80,
                reason: "From noreply address".to_owned(),
            },
        );
    }
    let ghost hints2 = hint_views(category_hints@);
    assert(hints2 =~= hints1 + if noreply {
        seq![("automated"@, 80u32, "From noreply address"@)]
    } else {
        Seq::empty()
    });
    if phones && companies {
        category_hints.push(
            CategoryHint {
                category: "lead".to_owned(),
                confidence: 60,
                reason: "Contains contact information".to_owned(),
            },
        );
    }
    assert(hint_views(category_hints@) =~= hints2 + if phones && companies {
        seq![("lead"@, 60u32, "Contains contact information"@)]
    } else {
        Seq::empty()
    });

    EmailMetadata {
        spam_score: if spam_score > MAX_SCORE {
            MAX_SCORE
        } else {
            spam_score
        },
        spam_indicators,
        urgency,
        category_hints,
        is_automated: noreply || mailer,
        is_mailing_list: list_unsubscribe,
        sentiment: detect_sentiment(lower_text),
    }
}

/// What the analysis reads off a message.
pub open spec fn findings_of(
    from: EmailAddress,
    headers: Headers,
    subject: Subject,
    body: Body,
    extracted: ExtractedEntities,
) -> Findings {
    Findings {
        noreply: noreply_marked(lowercase(from.local_part@)),
        tracking_urls: tracking_count(extracted.urls@),
        lower_subject: lowercase(subject.original@),
        priority: headers.priority,
        list_unsubscribe: headers.list_unsubscribe is Some,
        mailer: headers.mailer is Some,
        phones: extracted.phone_numbers@.len() > 0,
        companies: extracted.companies@.len() > 0,
        lower_text: lowercase(body.best()),
    }
}

/// Analyzes sender, headers, subject, body and extracted entities of a
/// message.
pub fn analyze_metadata(
    from: &EmailAddress,
    headers: &Headers,
    subject: &Subject,
    body: &Body,
    extracted: &ExtractedEntities,
) -> (r: EmailMetadata)
    ensures
        r.describes(findings_of(*from, *headers, *subject, *body, *extracted)),
        r.spam_score <= MAX_SCORE,
{
    let subject_lower = to_lowercase(subject.original.as_str());
    let text_lower = to_lowercase(body.best_text());
    assess(
        from.is_noreply(),
        count_tracking(&extracted.urls),
        subject_lower.as_str(),
        headers.priority,
        headers.list_unsubscribe.is_some(),
        headers.mailer.is_some(),
        !extracted.phone_numbers.is_empty(),
        !extracted.companies.is_empty(),
        text_lower.as_str(),
    )
}

} // verus!
