//! Sender and recipient addresses, and the display names that come with them.

use crate::text::{
    chars_of, contains, contains_text, index_of, lemma_index_of, lowercase, opt_text,
    position_of, same_text, split_whitespace, string_of, subvec, text_of, texts, to_lowercase,
    trim, trimmed, words,
};
use vstd::prelude::*;
use vstd::string::*;

verus! {

/// Parsed person name.
#[derive(Debug, Clone, PartialEq, Eq)]
pub struct PersonName {
    /// Full name as provided.
    pub full: String,
    /// First name, where there is one.
    pub first: Option<String>,
    /// Last name, where the name has more than one word.
    pub last: Option<String>,
}

/// A person name as texts.
pub struct PersonNameView {
    pub full: Seq<char>,
    pub first: Option<Seq<char>>,
    pub last: Option<Seq<char>>,
}

impl View for PersonName {
    type V = PersonNameView;

    open spec fn view(&self) -> PersonNameView {
        PersonNameView { full: self.full@, first: opt_text(self.first), last: opt_text(self.last) }
    }
}

/// `s` without one double quote at its start and one at its end, where it
/// has them: one layer of surrounding quotes.
pub open spec fn strip_quote_layer(s: Seq<char>) -> Seq<char> {
    let a: int = if s.len() > 0 && s[0] == '"' {
        1
    } else {
        0
    };
    let b: int = if s.len() > a && s.last() == '"' {
        1
    } else {
        0
    };
    s.subrange(a, s.len() - b)
}

/// The name that a text stands for. The text is trimmed and one layer of
/// quotes is taken off; its words decide the rest. Without a word every field
/// is empty; one word is both the full and the first name; of more words the
/// first and the last are kept, and the full name is the stripped text.
pub open spec fn person_name(s: Seq<char>) -> PersonNameView {
    let t = strip_quote_layer(trim(s));
    let w = split_whitespace(t);
    if w.len() == 0 {
        PersonNameView { full: Seq::empty(), first: None, last: None }
    } else if w.len() == 1 {
        PersonNameView { full: w[0], first: Some(w[0]), last: None }
    } else {
        PersonNameView { full: t, first: Some(w[0]), last: Some(w.last()) }
    }
}

/// Trims `v` and takes one layer of quotes off.
fn unquoted(v: &Vec<char>) -> (r: Vec<char>)
    ensures
        r@ == strip_quote_layer(trim(v@)),
{
    let t = trimmed(v);
    let a: usize = if t.len() > 0 && t[0] == '"' {
        1
    } else {
        0
    };
    let b: usize = if t.len() > a && t[t.len() - 1] == '"' {
        1
    } else {
        0
    };
    subvec(&t, a, t.len() - b)
}

impl PersonName {
    /// Parses a display name.
    pub fn parse(s: &str) -> (r: PersonName)
        ensures
            r@ == person_name(s@),
    {
        let t = unquoted(&chars_of(s));
        let parts = words(&t);
        assert(texts(parts@).len() == parts@.len());
        if parts.len() == 0 {
            PersonName { full: String::new(), first: None, last: None }
        } else if parts.len() == 1 {
            let w = &parts[0];
            assert(texts(parts@)[0] == w@);
            PersonName {
                full: text_of(w),
                first: Some(text_of(w)),
                last: None,
            }
        } else {
            let w = &parts[0];
            let z = &parts[parts.len() - 1];
            assert(texts(parts@)[0] == w@);
            assert(texts(parts@).last() == z@);
            PersonName {
                full: text_of(&t),
                first: Some(text_of(w)),
                last: Some(text_of(z)),
            }
        }
    }

    /// The full name.
    pub fn to_string(&self) -> (r: String)
        ensures
            r@ == self.full@,
    {
        self.full.clone()
    }
}

/// Email address with optional display name.
#[derive(Debug, Clone, PartialEq, Eq)]
pub struct EmailAddress {
    /// Display name, e.g. "John Doe".
    pub name: Option<PersonName>,
    /// The address, e.g. "john@example.com".
    pub address: String,
    /// The part of the address after the first `@`.
    pub domain: String,
    /// The part of the address before the first `@`.
    pub local_part: String,
}

/// An address as texts.
pub struct EmailAddressView {
    pub name: Option<PersonNameView>,
    pub address: Seq<char>,
    pub domain: Seq<char>,
    pub local_part: Seq<char>,
}

impl View for EmailAddress {
    type V = EmailAddressView;

    open spec fn view(&self) -> EmailAddressView {
        EmailAddressView {
            name: match self.name {
                Some(n) => Some(n@),
                None => None,
            },
            address: self.address@,
            domain: self.domain@,
            local_part: self.local_part@,
        }
    }
}

/// Number of double quotes at the start of `s`.
pub open spec fn leading_quotes(s: Seq<char>) -> nat
    decreases s.len(),
{
    if s.len() > 0 && s[0] == '"' {
        1 + leading_quotes(s.drop_first())
    } else {
        0
    }
}

/// Number of double quotes at the end of `s`.
pub open spec fn trailing_quotes(s: Seq<char>) -> nat
    decreases s.len(),
{
    if s.len() > 0 && s.last() == '"' {
        1 + trailing_quotes(s.drop_last())
    } else {
        0
    }
}

/// `s` without the double quotes at its start and at its end, however many
/// there are.
pub open spec fn strip_quotes(s: Seq<char>) -> Seq<char> {
    let t = s.skip(leading_quotes(s) as int);
    t.take(t.len() - trailing_quotes(t))
}

/// The display name that stands before the `<` of an address: the text
/// trimmed and without the quotes around it, parsed as a person name; none
/// where nothing is left for a name.
pub open spec fn display_name(before: Seq<char>) -> Option<PersonNameView> {
    let name = person_name(strip_quotes(trim(before)));
    if name.full.len() == 0 {
        None
    } else {
        Some(name)
    }
}

proof fn lemma_leading_quotes(s: Seq<char>, n: int)
    requires
        0 <= n <= s.len(),
        forall|j: int| 0 <= j < n ==> #[trigger] s[j] == '"',
        n == s.len() || s[n] != '"',
    ensures
        leading_quotes(s) == n,
    decreases n,
{
    if n > 0 {
        let t = s.drop_first();
        assert forall|j: int| 0 <= j < n - 1 implies #[trigger] t[j] == '"' by {
            assert(t[j] == s[j + 1]);
        }
        lemma_leading_quotes(t, n - 1);
    }
}

proof fn lemma_trailing_quotes(s: Seq<char>, n: int)
    requires
        0 <= n <= s.len(),
        forall|j: int| s.len() - n <= j < s.len() ==> #[trigger] s[j] == '"',
        n == s.len() || s[s.len() - n - 1] != '"',
    ensures
        trailing_quotes(s) == n,
    decreases n,
{
    if n > 0 {
        let t = s.drop_last();
        assert forall|j: int| t.len() - (n - 1) <= j < t.len() implies #[trigger] t[j] == '"' by {
            assert(t[j] == s[j]);
        }
        lemma_trailing_quotes(t, n - 1);
    }
}

/// Trims `v` and takes the quotes around it off.
fn bare_name(v: &Vec<char>) -> (r: Vec<char>)
    ensures
        r@ == strip_quotes(trim(v@)),
{
    let t = trimmed(v);
    let mut a: usize = 0;
    while a < t.len() && t[a] == '"'
        invariant
            a <= t.len(),
            forall|j: int| 0 <= j < a ==> #[trigger] t@[j] == '"',
        decreases t.len() - a,
    {
        a += 1;
    }
    let mut b: usize = t.len();
    while b > a && t[b - 1] == '"'
        invariant
            a <= b <= t.len(),
            forall|j: int| b <= j < t.len() ==> #[trigger] t@[j] == '"',
        decreases b,
    {
        b -= 1;
    }
    proof {
        lemma_leading_quotes(t@, a as int);
        let u = t@.skip(a as int);
        assert forall|j: int| u.len() - (t.len() - b) <= j < u.len() implies #[trigger] u[j]
            == '"' by {
            assert(u[j] == t@[a + j]);
        }
        lemma_trailing_quotes(u, t.len() - b);
        assert(strip_quotes(t@) =~= t@.subrange(a as int, b as int));
    }
    subvec(&t, a, b)
}

/// The address `addr`, split at its first `@`; none where it has no `@`.
pub open spec fn split_address(name: Option<PersonNameView>, addr: Seq<char>) -> Option<
    EmailAddressView,
> {
    match index_of(addr, '@') {
        Some(k) => Some(
            EmailAddressView {
                name,
                address: addr,
                local_part: addr.take(k),
                domain: addr.skip(k + 1),
            },
        ),
        None => None,
    }
}

/// The address that a header value stands for. Where the trimmed value holds
/// both `<` and `>`, the text between the first `<` and the first `>` is the
/// address and the text before the `<`, without the quotes around it, the
/// display name; otherwise the whole
/// trimmed value is the address. An address without `@` is none, and so is a
/// value whose first `>` comes before its first `<`.
pub open spec fn parsed_address(s: Seq<char>) -> Option<EmailAddressView> {
    let t = trim(s);
    match (index_of(t, '<'), index_of(t, '>')) {
        (Some(a), Some(b)) => if a < b {
            split_address(display_name(t.take(a)), trim(t.subrange(a + 1, b)))
        } else {
            None
        },
        _ => split_address(None, t),
    }
}

/// The local part marks a sender that takes no replies.
pub open spec fn noreply_marked(lower_local: Seq<char>) -> bool {
    ||| contains(lower_local, "noreply"@)
    ||| contains(lower_local, "no-reply"@)
    ||| contains(lower_local, "donotreply"@)
    ||| contains(lower_local, "automated"@)
    ||| contains(lower_local, "mailer-daemon"@)
}

/// The domain is one of the known consumer webmail domains.
pub open spec fn freemail_domain(lower_domain: Seq<char>) -> bool {
    ||| lower_domain == "gmail.com"@
    ||| lower_domain == "yahoo.com"@
    ||| lower_domain == "outlook.com"@
    ||| lower_domain == "hotmail.com"@
    ||| lower_domain == "protonmail.com"@
    ||| lower_domain == "proton.me"@
    ||| lower_domain == "icloud.com"@
    ||| lower_domain == "aol.com"@
}

/// Whether a lower-cased local part marks a sender that takes no replies.
pub fn is_noreply_local(lower_local: &str) -> (b: bool)
    ensures
        b == noreply_marked(lower_local@),
{
    let v = chars_of(lower_local);
    contains_text(&v, &chars_of("noreply")) || contains_text(&v, &chars_of("no-reply"))
        || contains_text(&v, &chars_of("donotreply")) || contains_text(&v, &chars_of("automated"))
        || contains_text(&v, &chars_of("mailer-daemon"))
}

/// Whether a lower-cased domain is a known consumer webmail domain.
pub fn is_freemail_domain(lower_domain: &str) -> (b: bool)
    ensures
        b == freemail_domain(lower_domain@),
{
    let v = chars_of(lower_domain);
    same_text(&v, &chars_of("gmail.com")) || same_text(&v, &chars_of("yahoo.com")) || same_text(
        &v,
        &chars_of("outlook.com"),
    ) || same_text(&v, &chars_of("hotmail.com")) || same_text(&v, &chars_of("protonmail.com"))
        || same_text(&v, &chars_of("proton.me")) || same_text(&v, &chars_of("icloud.com"))
        || same_text(&v, &chars_of("aol.com"))
}

/// Splits `addr` at its first `@`.
fn split_at_sign(name: Option<PersonName>, addr: &Vec<char>) -> (r: Option<EmailAddress>)
    ensures
        match r {
            Some(a) => split_address(
                match name {
                    Some(n) => Some(n@),
                    None => None,
                },
                addr@,
            ) == Some(a@) && a.wf(),
            None => split_address(
                match name {
                    Some(n) => Some(n@),
                    None => None,
                },
                addr@,
            ) is None,
        },
{
    match position_of(addr, '@') {
        Some(k) => {
            proof {
                lemma_index_of(addr@, '@');
                assert(addr@.subrange(0, k as int) =~= addr@.take(k as int));
                assert(addr@.subrange(k + 1, addr@.len() as int) =~= addr@.skip(k + 1));
                assert(addr@ =~= addr@.take(k as int) + seq!['@'] + addr@.skip(k + 1));
            }
            Some(
                EmailAddress {
                    name,
                    address: text_of(addr),
                    local_part: string_of(addr, 0, k),
                    domain: string_of(addr, k + 1, addr.len()),
                },
            )
        },
        None => None,
    }
}

impl EmailAddress {
    /// The address is its local part, an `@` and its domain.
    pub open spec fn wf(&self) -> bool {
        self.address@ == self.local_part@ + seq!['@'] + self.domain@
    }

    /// Parses a header value of the form `Name <local@domain>` or
    /// `local@domain`.
    pub fn parse(s: &str) -> (r: Option<EmailAddress>)
        ensures
            match r {
                Some(a) => parsed_address(s@) == Some(a@) && a.wf(),
                None => parsed_address(s@) is None,
            },
    {
        let t = trimmed(&chars_of(s));
        match (position_of(&t, '<'), position_of(&t, '>')) {
            (Some(a), Some(b)) => {
                if a < b {
                    let before = bare_name(&subvec(&t, 0, a));
                    let addr = trimmed(&subvec(&t, a + 1, b));
                    assert(t@.subrange(0, a as int) =~= t@.take(a as int));
                    let parsed = PersonName::parse(text_of(&before).as_str());
                    let name = if parsed.full.as_str().is_empty() {
                        None
                    } else {
                        Some(parsed)
                    };
                    split_at_sign(name, &addr)
                } else {
                    None
                }
            },
            _ => split_at_sign(None, &t),
        }
    }

    /// Whether this is likely an address that takes no replies: the
    /// lower-cased local part holds one of the markers of such senders.
    pub fn is_noreply(&self) -> (b: bool)
        ensures
            b == noreply_marked(lowercase(self.local_part@)),
    {
        let lower = to_lowercase(self.local_part.as_str());
        is_noreply_local(lower.as_str())
    }

    /// Whether the lower-cased domain is a known consumer webmail domain.
    pub fn is_freemail(&self) -> (b: bool)
        ensures
            b == freemail_domain(lowercase(self.domain@)),
    {
        let lower = to_lowercase(self.domain.as_str());
        is_freemail_domain(lower.as_str())
    }

    /// `Name <address>` where there is a display name, the address alone
    /// where there is none.
    pub fn to_string(&self) -> (r: String)
        ensures
            r@ == match self.name {
                Some(n) => n.full@ + " <"@ + self.address@ + ">"@,
                None => self.address@,
            },
    {
        match &self.name {
            Some(n) => n.full.clone().concat(" <").concat(self.address.as_str()).concat(">"),
            None => self.address.clone(),
        }
    }
}

} // verus!
