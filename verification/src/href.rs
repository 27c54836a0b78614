//! Redirect links: from the `href` of a result anchor to the destination it
//! stands for, and the test that tells a destination from the engine's own
//! links.

use vstd::prelude::*;
use crate::engine::{ENGINE_DOMAIN, ENGINE_ORIGIN, REDIRECT_PARAMETER, SECURE_SCHEME};
use crate::text::{
    chars_of,
    contains,
    first_index_of,
    has_prefix,
    position,
    slice_contains,
    string_of,
};

verus! {

/// What the pipeline reads of a parsed URL.
#[derive(Debug, PartialEq, Eq)]
pub struct UrlParts {
    /// The host, where the URL has one.
    pub host: Option<String>,
    /// The query text as it stands in the URL, not decoded, where the URL
    /// has one.
    pub query: Option<String>,
}

/// The mathematical model of [`UrlParts`].
pub struct UrlModel {
    pub host: Option<Seq<char>>,
    pub query: Option<Seq<char>>,
}

impl DeepView for UrlParts {
    type V = UrlModel;

    open spec fn deep_view(&self) -> UrlModel {
        UrlModel { host: self.host.deep_view(), query: self.query.deep_view() }
    }
}

impl View for UrlParts {
    type V = UrlModel;

    open spec fn view(&self) -> UrlModel {
        self.deep_view()
    }
}

/// What the url crate makes of `input` as an absolute URL: nothing where it
/// rejects the input, else the host and the query text of the URL.
pub uninterp spec fn parsed_url(input: Seq<char>) -> Option<UrlModel>;

/// What the urlencoding crate makes of `value`: the text with each `%xx`
/// escape replaced by its byte, or nothing where those bytes are no UTF-8.
pub uninterp spec fn percent_decoded(value: Seq<char>) -> Option<Seq<char>>;

/// `Url::parse` of the url crate, with `Url::host_str` and `Url::query`
/// read off the URL it gives: two parts of its text, neither decoded. The
/// result is a function of the input alone; it is `None` exactly where
/// `Url::parse` returns an error.
#[verifier::external_body]
fn parse_url(input: &str) -> (parts: Option<UrlParts>)
    ensures
        parts.deep_view() == parsed_url(input@),
{
    match url::Url::parse(input) {
        Ok(url) => Some(
            UrlParts { host: url.host_str().map(String::from), query: url.query().map(String::from) },
        ),
        Err(_) => None,
    }
}

/// `urlencoding::decode`. The result is a function of the input alone; it is
/// `None` exactly where `decode` returns an error.
#[verifier::external_body]
fn percent_decode(value: &str) -> (text: Option<String>)
    ensures
        text.deep_view() == percent_decoded(value@),
{
    match urlencoding::decode(value) {
        Ok(text) => Some(text.into_owned()),
        Err(_) => None,
    }
}

/// The URL that an `href` stands for: a protocol-relative one gets the
/// secure scheme, an origin-relative one the engine's origin, any other is
/// taken as it is.
pub open spec fn resolved_href(href: Seq<char>) -> Seq<char> {
    if "//"@.is_prefix_of(href) {
        SECURE_SCHEME@ + href
    } else if "/"@.is_prefix_of(href) {
        ENGINE_ORIGIN@ + href
    } else {
        href
    }
}

/// The name of one segment of a query: what stands before its first `=`.
pub open spec fn segment_name(segment: Seq<char>) -> Seq<char> {
    segment.take(first_index_of(segment, '='))
}

/// The value of one segment of a query: what stands after its first `=`,
/// nothing where it has none.
pub open spec fn segment_value(segment: Seq<char>) -> Seq<char> {
    let at = first_index_of(segment, '=');
    if 0 <= at < segment.len() {
        segment.skip(at + 1)
    } else {
        Seq::empty()
    }
}

/// The pairs of a query text, as they stand in it: the text is cut at each
/// `&`, and each segment that is not empty gives its name and its value.
/// Nothing is decoded.
pub open spec fn raw_pairs(query: Seq<char>) -> Seq<(Seq<char>, Seq<char>)>
    decreases query.len(),
{
    let end = first_index_of(query, '&');
    let segment = query.take(end);
    let head = if segment.len() == 0 {
        Seq::empty()
    } else {
        seq![(segment_name(segment), segment_value(segment))]
    };
    if 0 <= end < query.len() {
        head + raw_pairs(query.skip(end + 1))
    } else {
        head
    }
}

/// The value of the first pair whose key is `key`.
pub open spec fn first_value(pairs: Seq<(Seq<char>, Seq<char>)>, key: Seq<char>) -> Option<
    Seq<char>,
>
    decreases pairs.len(),
{
    if pairs.len() == 0 {
        None
    } else if pairs.first().0 == key {
        Some(pairs.first().1)
    } else {
        first_value(pairs.drop_first(), key)
    }
}

/// Some pair of `pairs` has the key `key`.
pub open spec fn has_key(pairs: Seq<(Seq<char>, Seq<char>)>, key: Seq<char>) -> bool {
    exists|i: int| 0 <= i < pairs.len() && (#[trigger] pairs[i]).0 == key
}

/// The value of the first segment of `query` whose name is `key`, as it
/// stands in the query.
pub open spec fn raw_value(query: Seq<char>, key: Seq<char>) -> Option<Seq<char>> {
    first_value(raw_pairs(query), key)
}

/// The query text, or the empty text where the URL has none.
pub open spec fn query_text(query: Option<Seq<char>>) -> Seq<char> {
    match query {
        Some(text) => text,
        None => Seq::empty(),
    }
}

/// The destination that the redirect link `href` carries: the value of its
/// redirect parameter, percent-decoded once.
pub open spec fn redirect_target(href: Seq<char>) -> Option<Seq<char>> {
    match parsed_url(resolved_href(href)) {
        Some(parts) => match raw_value(query_text(parts.query), REDIRECT_PARAMETER@) {
            Some(value) => percent_decoded(value),
            None => None,
        },
        None => None,
    }
}

/// The link `href` parses and carries the redirect parameter.
pub open spec fn has_redirect_parameter(href: Seq<char>) -> bool {
    match parsed_url(resolved_href(href)) {
        Some(parts) => has_key(raw_pairs(query_text(parts.query)), REDIRECT_PARAMETER@),
        None => false,
    }
}

/// The host, or the empty text where the URL has none.
pub open spec fn host_text(host: Option<Seq<char>>) -> Seq<char> {
    match host {
        Some(text) => text,
        None => Seq::empty(),
    }
}

/// A URL with these parts leads away from the engine.
pub open spec fn is_external(parts: UrlModel) -> bool {
    !contains(host_text(parts.host), ENGINE_DOMAIN@)
}

/// `url` parses as an absolute URL and leads away from the engine.
pub open spec fn valid_target(url: Seq<char>) -> bool {
    match parsed_url(url) {
        Some(parts) => is_external(parts),
        None => false,
    }
}

/// Where the first `i` keys differ from `key` and the next is `key`, the
/// first value is the one at `i`.
pub proof fn lemma_first_value_at(pairs: Seq<(Seq<char>, Seq<char>)>, key: Seq<char>, i: int)
    requires
        0 <= i < pairs.len(),
        forall|j: int| 0 <= j < i ==> (#[trigger] pairs[j]).0 != key,
        pairs[i].0 == key,
    ensures
        first_value(pairs, key) == Some(pairs[i].1),
    decreases i,
{
    if i > 0 {
        let rest = pairs.drop_first();
        assert forall|j: int| 0 <= j < i - 1 implies (#[trigger] rest[j]).0 != key by {
            assert(rest[j] == pairs[j + 1]);
        }
        lemma_first_value_at(rest, key, i - 1);
    }
}

/// There is a first value exactly where some pair has the key.
pub proof fn lemma_first_value_some_iff_has_key(pairs: Seq<(Seq<char>, Seq<char>)>, key: Seq<char>)
    ensures
        first_value(pairs, key) is Some <==> has_key(pairs, key),
    decreases pairs.len(),
{
    if pairs.len() == 0 {
    } else if pairs.first().0 == key {
        assert(pairs[0].0 == key);
    } else {
        let rest = pairs.drop_first();
        lemma_first_value_some_iff_has_key(rest, key);
        if has_key(rest, key) {
            let i = choose|i: int| 0 <= i < rest.len() && (#[trigger] rest[i]).0 == key;
            assert(pairs[i + 1] == rest[i]);
        }
        if has_key(pairs, key) {
            let i = choose|i: int| 0 <= i < pairs.len() && (#[trigger] pairs[i]).0 == key;
            assert(rest[i - 1] == pairs[i]);
        }
    }
}

/// A link without the redirect parameter carries no destination.
pub proof fn lemma_no_parameter_no_target(href: Seq<char>)
    requires
        !has_redirect_parameter(href),
    ensures
        redirect_target(href) is None,
{
    match parsed_url(resolved_href(href)) {
        Some(parts) => {
            lemma_first_value_some_iff_has_key(
                raw_pairs(query_text(parts.query)),
                REDIRECT_PARAMETER@,
            );
        },
        None => {},
    }
}

/// A protocol-relative link resolves to a URL of the `https` scheme.
pub proof fn lemma_protocol_relative_is_https(href: Seq<char>)
    requires
        "//"@.is_prefix_of(href),
    ensures
        resolved_href(href) == "https:"@ + href,
        "https://"@.is_prefix_of(resolved_href(href)),
{
    reveal_strlit("//");
    reveal_strlit("https:");
    reveal_strlit("https://");
    let resolved = resolved_href(href);
    assert(resolved.subrange(0, 8) =~= "https://"@) by {
        assert(href[0] == '/' && href[1] == '/') by {
            assert(href.subrange(0, 2) == "//"@);
            assert(href.subrange(0, 2)[0] == href[0]);
            assert(href.subrange(0, 2)[1] == href[1]);
        }
    }
}

/// Resolves `href` to the URL it stands for.
pub fn resolve_href(href: &str) -> (url: String)
    ensures
        url@ == resolved_href(href@),
{
    let text = chars_of(href);
    let double = chars_of("//");
    let single = chars_of("/");
    if has_prefix(text.as_slice(), double.as_slice()) {
        String::from_str(SECURE_SCHEME).concat(href)
    } else if has_prefix(text.as_slice(), single.as_slice()) {
        String::from_str(ENGINE_ORIGIN).concat(href)
    } else {
        String::from_str(href)
    }
}

/// Finds the value of the first pair of `pairs` whose key is `key`.
pub fn find_value<'a>(pairs: &'a Vec<(String, String)>, key: &str) -> (value: Option<&'a String>)
    ensures
        value.deep_view() == first_value(pairs.deep_view(), key@),
{
    let wanted = String::from_str(key);
    let mut i: usize = 0;
    while i < pairs.len()
        invariant
            i <= pairs@.len(),
            wanted@ == key@,
            forall|j: int| 0 <= j < i ==> (#[trigger] pairs.deep_view()[j]).0 != key@,
        decreases pairs@.len() - i,
    {
        if pairs[i].0 == wanted {
            proof {
                assert(pairs.deep_view()[i as int] == (pairs@[i as int].0@, pairs@[i as int].1@));
                lemma_first_value_at(pairs.deep_view(), key@, i as int);
            }
            return Some(&pairs[i].1);
        }
        assert(pairs.deep_view()[i as int].0 == pairs@[i as int].0@);
        i += 1;
    }
    proof {
        lemma_first_value_some_iff_has_key(pairs.deep_view(), key@);
    }
    None
}

/// Cuts a query text into its pairs, as they stand in it.
pub fn split_query(query: &str) -> (pairs: Vec<(String, String)>)
    ensures
        pairs.deep_view() == raw_pairs(query@),
{
    let chars = chars_of(query);
    let mut pairs: Vec<(String, String)> = Vec::new();
    let mut rest: &[char] = chars.as_slice();
    assert(pairs.deep_view() + raw_pairs(rest@) =~= raw_pairs(query@));
    loop
        invariant
            raw_pairs(query@) == pairs.deep_view() + raw_pairs(rest@),
        decreases rest@.len(),
    {
        let ghost before = pairs.deep_view();
        let ghost whole = rest@;
        let n: usize = rest.len();
        let end: usize = position(rest, '&');
        let segment: &[char] = &rest[0..end];
        assert(segment@ =~= whole.take(end as int));
        if end > 0 {
            let at: usize = position(segment, '=');
            let name = string_of(&segment[0..at]);
            let value = if at < end {
                string_of(&segment[at + 1..end])
            } else {
                String::new()
            };
            assert(name@ =~= segment_name(segment@));
            assert(value@ =~= segment_value(segment@));
            pairs.push((name, value));
            assert(pairs.deep_view() =~= before + seq![
                (segment_name(segment@), segment_value(segment@)),
            ]);
        } else {
            assert(pairs.deep_view() =~= before + Seq::empty());
        }
        if end < n {
            rest = &rest[end + 1..n];
            assert(rest@ =~= whole.skip(end + 1));
            assert(raw_pairs(query@) =~= pairs.deep_view() + raw_pairs(rest@));
        } else {
            assert(raw_pairs(query@) =~= pairs.deep_view());
            return pairs;
        }
    }
}

/// Finds the value of the first segment of `query` whose name is `key`, as
/// it stands in the query.
pub fn find_raw_value(query: &str, key: &str) -> (value: Option<String>)
    ensures
        value.deep_view() == raw_value(query@, key@),
{
    let pairs = split_query(query);
    match find_value(&pairs, key) {
        Some(value) => Some(value.clone()),
        None => None,
    }
}

/// Decides whether a URL with these parts leads away from the engine.
pub fn leads_away(parts: &UrlParts) -> (away: bool)
    ensures
        away == is_external(parts@),
{
    let domain = chars_of(ENGINE_DOMAIN);
    match &parts.host {
        Some(host) => {
            let host_chars = chars_of(host.as_str());
            !slice_contains(host_chars.as_slice(), domain.as_slice())
        },
        None => {
            let empty: Vec<char> = Vec::new();
            !slice_contains(empty.as_slice(), domain.as_slice())
        },
    }
}

/// Recovers the destination from the `href` of a redirect link: the value
/// of its redirect parameter, percent-decoded once. There is none where the
/// link does not parse, lacks the parameter, or holds a value that does not
/// decode.
pub fn extract_uddg_url(raw_href: &str) -> (target: Option<String>)
    ensures
        target.deep_view() == redirect_target(raw_href@),
{
    let full_url = resolve_href(raw_href);
    match parse_url(full_url.as_str()) {
        Some(parts) => {
            let found = match &parts.query {
                Some(query) => find_raw_value(query.as_str(), REDIRECT_PARAMETER),
                None => find_raw_value("", REDIRECT_PARAMETER),
            };
            proof {
                reveal_strlit("");
                assert(""@ =~= Seq::<char>::empty());
            }
            match found {
                Some(value) => percent_decode(value.as_str()),
                None => None,
            }
        },
        None => None,
    }
}

/// Decides whether `url_str` is a destination worth fetching: it parses as
/// an absolute URL, and its host does not hold the engine's domain.
pub fn is_valid_target_url(url_str: &str) -> (valid: bool)
    ensures
        valid == valid_target(url_str@),
{
    match parse_url(url_str) {
        Some(parts) => leads_away(&parts),
        None => false,
    }
}

} // verus!
