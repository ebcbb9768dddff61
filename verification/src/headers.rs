//! Reading the header fields of a message. Header names are compared in
//! their lower-cased form.

use crate::error::ParseError;
use crate::mime::header_views;
use crate::text::{
    chars_of, contains, contains_text, has_prefix, lowercase, opt_text, same_text, starts_with,
    to_lowercase,
};
use crate::types::{priority_of, AuthResult, AuthenticationResults, Headers, Priority};
use vstd::prelude::*;
use vstd::string::*;

verus! {

/// The views of a sequence of strings.
pub open spec fn name_views(names: Seq<String>) -> Seq<Seq<char>> {
    names.map_values(|n: String| n@)
}

/// The names of the headers, lower-cased.
pub open spec fn lowered_names(headers: Seq<(Seq<char>, Seq<char>)>) -> Seq<Seq<char>> {
    headers.map_values(|h: (Seq<char>, Seq<char>)| lowercase(h.0))
}

/// The headers with name and value lower-cased.
pub open spec fn lowered_fields(headers: Seq<(Seq<char>, Seq<char>)>) -> Seq<
    (Seq<char>, Seq<char>),
> {
    headers.map_values(|h: (Seq<char>, Seq<char>)| (lowercase(h.0), lowercase(h.1)))
}

/// The index of the first of `names` from index `i` on that is one of
/// `wanted`.
pub open spec fn first_of_from(names: Seq<Seq<char>>, wanted: Seq<Seq<char>>, i: int) -> Option<
    int,
>
    decreases names.len() - i,
{
    if i < 0 || i >= names.len() {
        None
    } else if wanted.contains(names[i]) {
        Some(i)
    } else {
        first_of_from(names, wanted, i + 1)
    }
}

/// The value of the first header whose lower-cased name is one of `wanted`.
pub open spec fn header_among(headers: Seq<(Seq<char>, Seq<char>)>, wanted: Seq<Seq<char>>)
    -> Option<Seq<char>> {
    match first_of_from(lowered_names(headers), wanted, 0) {
        Some(i) => Some(headers[i].1),
        None => None,
    }
}

/// The value of the first header whose lower-cased name is `name`.
pub open spec fn header_value(headers: Seq<(Seq<char>, Seq<char>)>, name: Seq<char>) -> Option<
    Seq<char>,
> {
    header_among(headers, seq![name])
}

/// The lookup goes by which names are wanted, not by how they are listed.
proof fn lemma_same_wanted(names: Seq<Seq<char>>, a: Seq<Seq<char>>, b: Seq<Seq<char>>, i: int)
    requires
        forall|x: Seq<char>| a.contains(x) <==> b.contains(x),
    ensures
        first_of_from(names, a, i) == first_of_from(names, b, i),
    decreases names.len() - i,
{
    if 0 <= i < names.len() {
        lemma_same_wanted(names, a, b, i + 1);
    }
}

/// The lower-cased names of the headers.
pub fn lower_names(headers: &Vec<(String, String)>) -> (r: Vec<String>)
    ensures
        name_views(r@) == lowered_names(header_views(headers@)),
{
    let mut r: Vec<String> = Vec::new();
    let mut i: usize = 0;
    while i < headers.len()
        invariant
            i <= headers.len(),
            r@.len() == i,
            forall|k: int| 0 <= k < i ==> (#[trigger] r@[k])@ == lowercase(headers@[k].0@),
        decreases headers.len() - i,
    {
        r.push(to_lowercase(headers[i].0.as_str()));
        i += 1;
    }
    assert(name_views(r@) =~= lowered_names(header_views(headers@)));
    r
}

/// The headers with name and value lower-cased.
pub fn lower_fields(headers: &Vec<(String, String)>) -> (r: Vec<(String, String)>)
    ensures
        header_views(r@) == lowered_fields(header_views(headers@)),
{
    let mut r: Vec<(String, String)> = Vec::new();
    let mut i: usize = 0;
    while i < headers.len()
        invariant
            i <= headers.len(),
            r@.len() == i,
            forall|k: int|
                0 <= k < i ==> (#[trigger] r@[k]).0@ == lowercase(headers@[k].0@) && r@[k].1@
                    == lowercase(headers@[k].1@),
        decreases headers.len() - i,
    {
        r.push((to_lowercase(headers[i].0.as_str()), to_lowercase(headers[i].1.as_str())));
        i += 1;
    }
    assert(header_views(r@) =~= lowered_fields(header_views(headers@)));
    r
}

/// The index of the first of `names` that is `name` or `other`.
pub fn find_name(names: &Vec<String>, name: &str, other: &str) -> (r: Option<usize>)
    ensures
        match r {
            Some(i) => i < names.len() && first_of_from(
                name_views(names@),
                seq![name@, other@],
                0,
            ) == Some(i as int),
            None => first_of_from(name_views(names@), seq![name@, other@], 0) is None,
        },
{
    let a = chars_of(name);
    let b = chars_of(other);
    let ghost wanted = seq![name@, other@];
    let ghost views = name_views(names@);
    let mut i: usize = 0;
    while i < names.len()
        invariant
            i <= names.len(),
            a@ == name@,
            b@ == other@,
            wanted == seq![name@, other@],
            views == name_views(names@),
            first_of_from(views, wanted, 0) == first_of_from(views, wanted, i as int),
        decreases names.len() - i,
    {
        let key = chars_of(names[i].as_str());
        proof {
            assert(views[i as int] == names@[i as int]@);
            assert(wanted[0] == name@ && wanted[1] == other@);
            if wanted.contains(key@) {
                let k = choose|k: int| 0 <= k < wanted.len() && wanted[k] == key@;
                assert(k == 0 || k == 1);
            }
        }
        if same_text(&key, &a) || same_text(&key, &b) {
            return Some(i);
        }
        i += 1;
    }
    None
}

/// The index of the first header whose lower-cased name is `name` or `other`.
pub fn find_header(headers: &Vec<(String, String)>, name: &str, other: &str) -> (r: Option<usize>)
    ensures
        match r {
            Some(i) => i < headers.len() && first_of_from(
                lowered_names(header_views(headers@)),
                seq![name@, other@],
                0,
            ) == Some(i as int) && header_among(header_views(headers@), seq![name@, other@])
                == Some(headers@[i as int].1@),
            None => header_among(header_views(headers@), seq![name@, other@]) is None,
        },
{
    let names = lower_names(headers);
    let r = find_name(&names, name, other);
    proof {
        assert(name_views(names@).len() == names@.len());
        assert(lowered_names(header_views(headers@)).len() == headers@.len());
        match r {
            Some(i) => {
                assert(header_views(headers@)[i as int].1 == headers@[i as int].1@);
            },
            None => {},
        }
    }
    r
}

/// One name listed twice is wanted as it is when listed once.
proof fn lemma_wanted_twice(names: Seq<Seq<char>>, name: Seq<char>)
    ensures
        first_of_from(names, seq![name, name], 0) == first_of_from(names, seq![name], 0),
{
    let two = seq![name, name];
    let one = seq![name];
    assert forall|x: Seq<char>| two.contains(x) <==> one.contains(x) by {
        if two.contains(x) {
            let k = choose|k: int| 0 <= k < two.len() && two[k] == x;
            assert(one[0] == x);
        }
        if one.contains(x) {
            let k = choose|k: int| 0 <= k < one.len() && one[k] == x;
            assert(two[0] == x);
        }
    }
    lemma_same_wanted(names, two, one, 0);
}

/// The value of the first header whose lower-cased name is `name`.
pub fn get_header(headers: &Vec<(String, String)>, name: &str) -> (r: Option<String>)
    ensures
        opt_text(r) == header_value(header_views(headers@), name@),
{
    proof {
        lemma_wanted_twice(lowered_names(header_views(headers@)), name@);
    }
    match find_header(headers, name, name) {
        Some(i) => Some(headers[i].1.clone()),
        None => None,
    }
}

/// The result that a lower-cased authentication value reports under `pass`
/// and `fail`, or `before` where it reports neither.
pub open spec fn auth_update(
    before: Option<AuthResult>,
    lower_value: Seq<char>,
    pass: Seq<char>,
    fail: Seq<char>,
) -> Option<AuthResult> {
    if contains(lower_value, pass) {
        Some(AuthResult::Pass)
    } else if contains(lower_value, fail) {
        Some(AuthResult::Fail)
    } else {
        before
    }
}

/// The authentication results that lower-cased header fields report: each
/// field named `authentication-results`, in order, sets the results that its
/// value names with `pass` or `fail`.
pub open spec fn auth_from(fields: Seq<(Seq<char>, Seq<char>)>) -> AuthenticationResults
    decreases fields.len(),
{
    if fields.len() == 0 {
        AuthenticationResults { spf: None, dkim: None, dmarc: None }
    } else {
        let before = auth_from(fields.drop_last());
        if fields.last().0 == "authentication-results"@ {
            let v = fields.last().1;
            AuthenticationResults {
                spf: auth_update(before.spf, v, "spf=pass"@, "spf=fail"@),
                dkim: auth_update(before.dkim, v, "dkim=pass"@, "dkim=fail"@),
                dmarc: auth_update(before.dmarc, v, "dmarc=pass"@, "dmarc=fail"@),
            }
        } else {
            before
        }
    }
}

/// The authentication results that the headers report.
pub open spec fn auth_of(headers: Seq<(Seq<char>, Seq<char>)>) -> AuthenticationResults {
    auth_from(lowered_fields(headers))
}

/// The headers whose name in `names` begins with `x-`, in order; `names`
/// holds one name for each header.
pub open spec fn custom_among(headers: Seq<(Seq<char>, Seq<char>)>, names: Seq<Seq<char>>) -> Seq<
    (Seq<char>, Seq<char>),
>
    decreases headers.len(),
{
    if headers.len() == 0 || names.len() != headers.len() {
        Seq::empty()
    } else if starts_with(names.last(), "x-"@) {
        custom_among(headers.drop_last(), names.drop_last()).push(headers.last())
    } else {
        custom_among(headers.drop_last(), names.drop_last())
    }
}

/// The headers whose lower-cased name begins with `x-`, in order.
pub open spec fn custom_of(headers: Seq<(Seq<char>, Seq<char>)>) -> Seq<(Seq<char>, Seq<char>)> {
    custom_among(headers, lowered_names(headers))
}

fn auth_step(before: Option<AuthResult>, lower_value: &Vec<char>, pass: &str, fail: &str) -> (r:
    Option<AuthResult>)
    ensures
        r == auth_update(before, lower_value@, pass@, fail@),
{
    if contains_text(lower_value, &chars_of(pass)) {
        Some(AuthResult::Pass)
    } else if contains_text(lower_value, &chars_of(fail)) {
        Some(AuthResult::Fail)
    } else {
        before
    }
}

/// Reads the authentication results off lower-cased header fields.
pub fn read_authentication(fields: &Vec<(String, String)>) -> (r: AuthenticationResults)
    ensures
        r == auth_from(header_views(fields@)),
{
    let name = chars_of("authentication-results");
    let ghost views = header_views(fields@);
    let mut spf: Option<AuthResult> = None;
    let mut dkim: Option<AuthResult> = None;
    let mut dmarc: Option<AuthResult> = None;
    let mut i: usize = 0;
    proof {
        assert(views.take(0) =~= Seq::<(Seq<char>, Seq<char>)>::empty());
    }
    while i < fields.len()
        invariant
            i <= fields.len(),
            name@ == "authentication-results"@,
            views == header_views(fields@),
            auth_from(views.take(i as int)) == (AuthenticationResults { spf, dkim, dmarc }),
        decreases fields.len() - i,
    {
        proof {
            assert(views.take(i + 1).drop_last() =~= views.take(i as int));
            assert(views.take(i + 1).last() == views[i as int]);
            assert(views[i as int] == (fields@[i as int].0@, fields@[i as int].1@));
        }
        let key = chars_of(fields[i].0.as_str());
        if same_text(&key, &name) {
            let value = chars_of(fields[i].1.as_str());
            spf = auth_step(spf, &value, "spf=pass", "spf=fail");
            dkim = auth_step(dkim, &value, "dkim=pass", "dkim=fail");
            dmarc = auth_step(dmarc, &value, "dmarc=pass", "dmarc=fail");
        }
        i += 1;
    }
    proof {
        assert(views.take(views.len() as int) =~= views);
    }
    AuthenticationResults { spf, dkim, dmarc }
}

/// Reads the authentication results off the headers.
pub fn parse_authentication_results(headers: &Vec<(String, String)>) -> (r: AuthenticationResults)
    ensures
        r == auth_of(header_views(headers@)),
{
    read_authentication(&lower_fields(headers))
}

/// The headers whose name in `names` begins with `x-`; none where `names`
/// does not hold one name for each header.
pub fn pick_custom(headers: &Vec<(String, String)>, names: &Vec<String>) -> (r: Vec<
    (String, String),
>)
    ensures
        header_views(r@) == custom_among(header_views(headers@), name_views(names@)),
{
    let prefix = chars_of("x-");
    let ghost views = header_views(headers@);
    let ghost keys = name_views(names@);
    let mut r: Vec<(String, String)> = Vec::new();
    let mut i: usize = 0;
    proof {
        assert(views.take(0) =~= Seq::<(Seq<char>, Seq<char>)>::empty());
        assert(header_views(r@) =~= Seq::<(Seq<char>, Seq<char>)>::empty());
    }
    if names.len() != headers.len() {
        return r;
    }
    while i < headers.len()
        invariant
            i <= headers.len(),
            names.len() == headers.len(),
            prefix@ == "x-"@,
            views == header_views(headers@),
            keys == name_views(names@),
            header_views(r@) == custom_among(views.take(i as int), keys.take(i as int)),
        decreases headers.len() - i,
    {
        proof {
            assert(views.take(i + 1).drop_last() =~= views.take(i as int));
            assert(keys.take(i + 1).drop_last() =~= keys.take(i as int));
            assert(views.take(i + 1).last() == views[i as int]);
            assert(keys.take(i + 1).last() == names@[i as int]@);
            assert(views[i as int] == (headers@[i as int].0@, headers@[i as int].1@));
        }
        let key = chars_of(names[i].as_str());
        if has_prefix(&key, &prefix) {
            let ghost before = r@;
            let h = (headers[i].0.clone(), headers[i].1.clone());
            r.push(h);
            assert(header_views(r@) =~= header_views(before).push(views[i as int]));
        }
        i += 1;
    }
    proof {
        assert(views.take(views.len() as int) =~= views);
        assert(keys.take(keys.len() as int) =~= keys);
    }
    r
}

impl Headers {
    /// These are the headers read off the header fields `headers`.
    pub open spec fn describes(&self, headers: Seq<(Seq<char>, Seq<char>)>) -> bool {
        &&& self.all@.len() == headers.len()
        &&& forall|i: int|
            0 <= i < headers.len() ==> (#[trigger] self.all@[i]).0@ == lowercase(headers[i].0)
                && self.all@[i].1@ == headers[i].1
        &&& opt_text(self.content_type) == header_value(headers, "content-type"@)
        &&& opt_text(self.mailer) == header_among(headers, seq!["x-mailer"@, "user-agent"@])
        &&& self.priority == match header_value(headers, "x-priority"@) {
            Some(v) => Some(priority_of(v)),
            None => None,
        }
        &&& opt_text(self.list_unsubscribe) == header_value(headers, "list-unsubscribe"@)
        &&& self.authentication == auth_of(headers)
        &&& header_views(self.custom@) == custom_of(headers)
    }
}

/// The headers under the names `names`.
fn renamed(headers: &Vec<(String, String)>, names: &Vec<String>) -> (r: Vec<(String, String)>)
    requires
        names.len() == headers.len(),
    ensures
        r@.len() == headers@.len(),
        forall|i: int|
            0 <= i < headers@.len() ==> (#[trigger] r@[i]).0@ == names@[i]@ && r@[i].1@
                == headers@[i].1@,
{
    let mut r: Vec<(String, String)> = Vec::new();
    let mut i: usize = 0;
    while i < headers.len()
        invariant
            i <= headers.len(),
            names.len() == headers.len(),
            r@.len() == i,
            forall|k: int|
                0 <= k < i ==> (#[trigger] r@[k]).0@ == names@[k]@ && r@[k].1@ == headers@[k].1@,
        decreases headers.len() - i,
    {
        r.push((names[i].clone(), headers[i].1.clone()));
        i += 1;
    }
    r
}

/// The value of the header at the index found, if one was found.
fn value_at(headers: &Vec<(String, String)>, found: Option<usize>) -> (r: Option<String>)
    requires
        match found {
            Some(i) => i < headers.len(),
            None => true,
        },
    ensures
        opt_text(r) == match found {
            Some(i) => Some(headers@[i as int].1@),
            None => None,
        },
{
    match found {
        Some(i) => Some(headers[i].1.clone()),
        None => None,
    }
}

/// Reads the headers of a message off its header fields.
pub fn parse_headers(headers: &Vec<(String, String)>) -> (r: Result<Headers, ParseError>)
    ensures
        match r {
            Ok(h) => h.describes(header_views(headers@)),
            Err(_) => false,
        },
{
    let ghost views = header_views(headers@);
    let names = lower_names(headers);
    proof {
        assert(name_views(names@).len() == names@.len());
        assert(lowered_names(views).len() == views.len());
        lemma_wanted_twice(lowered_names(views), "content-type"@);
        lemma_wanted_twice(lowered_names(views), "x-priority"@);
        lemma_wanted_twice(lowered_names(views), "list-unsubscribe"@);
        assert forall|i: int| 0 <= i < views.len() implies #[trigger] views[i] == (
            headers@[i].0@,
            headers@[i].1@,
        ) by {}
    }
    let all = renamed(headers, &names);
    let content_type = value_at(headers, find_name(&names, "content-type", "content-type"));
    let mailer = value_at(headers, find_name(&names, "x-mailer", "user-agent"));
    let priority = match value_at(headers, find_name(&names, "x-priority", "x-priority")) {
        Some(v) => Some(Priority::from_header(v.as_str())),
        None => None,
    };
    let list_unsubscribe = value_at(
        headers,
        find_name(&names, "list-unsubscribe", "list-unsubscribe"),
    );
    let authentication = parse_authentication_results(headers);
    let custom = pick_custom(headers, &names);
    proof {
        assert forall|i: int| 0 <= i < views.len() implies (#[trigger] all@[i]).0@ == lowercase(
            views[i].0,
        ) && all@[i].1@ == views[i].1 by {
            assert(name_views(names@)[i] == names@[i]@);
            assert(lowered_names(views)[i] == lowercase(views[i].0));
        }
    }
    Ok(
        Headers {
            all,
            content_type,
            mailer,
            priority,
            list_unsubscribe,
            authentication,
            custom,
        },
    )
}

} // verus!
