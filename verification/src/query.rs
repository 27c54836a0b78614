//! The search request: the query as it travels, the identity it is sent
//! under, and the URL and headers of the request.

use vstd::prelude::*;
use crate::engine::{ACCEPT_LANGUAGE, SEARCH_ENDPOINT};
use crate::random::random_in;
use crate::text::{chars_of, push_char};

verus! {

/// A desktop browser on Windows.
pub const IDENTITY_CHROME: &'static str =
    "Mozilla/5.0 (Windows NT 10.0; Win64; x64) AppleWebKit/537.36 (KHTML, like Gecko) Chrome/115.0.0.0 Safari/537.36";

/// A desktop browser on macOS.
pub const IDENTITY_SAFARI: &'static str =
    "Mozilla/5.0 (Macintosh; Intel Mac OS X 13_4_0) AppleWebKit/605.1.15 (KHTML, like Gecko) Version/16.5 Safari/605.1.15";

/// A desktop browser on Linux.
pub const IDENTITY_FIREFOX: &'static str =
    "Mozilla/5.0 (X11; Linux x86_64) Gecko/20100101 Firefox/117.0";

/// The character that stands for `c` in the query as it travels: `+` for a
/// space, `c` itself for any other.
pub open spec fn encoded_char(c: char) -> char {
    if c == ' ' {
        '+'
    } else {
        c
    }
}

/// The query as it travels: each space replaced by `+`.
pub open spec fn encoded(query: Seq<char>) -> Seq<char> {
    query.map_values(|c: char| encoded_char(c))
}

/// The index that a drawn number picks in a pool of `len` identities: the
/// number itself where it is an index, else the last index.
pub open spec fn picked_index(len: nat, drawn: u64) -> int
    recommends
        len > 0,
{
    if drawn < len {
        drawn as int
    } else {
        len - 1
    }
}

/// The query text, normalised for transport. It does not change once built.
#[derive(Debug, PartialEq, Eq)]
pub struct SearchQuery {
    text: String,
}

impl View for SearchQuery {
    type V = Seq<char>;

    closed spec fn view(&self) -> Seq<char> {
        self.text@
    }
}

/// What is sent to the engine: one GET request.
#[derive(Debug, PartialEq, Eq)]
pub struct SearchRequest {
    /// The URL of the request, with the query in it.
    pub url: String,
    /// The value of the `User-Agent` header.
    pub user_agent: String,
    /// The value of the `Accept-Language` header.
    pub accept_language: String,
}

/// The mathematical model of a [`SearchRequest`].
pub struct RequestModel {
    pub url: Seq<char>,
    pub user_agent: Seq<char>,
    pub accept_language: Seq<char>,
}

impl View for SearchRequest {
    type V = RequestModel;

    open spec fn view(&self) -> RequestModel {
        RequestModel {
            url: self.url@,
            user_agent: self.user_agent@,
            accept_language: self.accept_language@,
        }
    }
}

/// The request for `query` under `identity`.
pub open spec fn request_for(query: Seq<char>, identity: Seq<char>) -> RequestModel {
    RequestModel {
        url: SEARCH_ENDPOINT@ + encoded(query),
        user_agent: identity,
        accept_language: ACCEPT_LANGUAGE@,
    }
}

/// The query as it travels is as long as the query and holds no space.
pub proof fn lemma_encoded_has_no_space(query: Seq<char>)
    ensures
        encoded(query).len() == query.len(),
        forall|i: int| 0 <= i < query.len() ==> (#[trigger] encoded(query)[i]) != ' ',
        forall|i: int|
            0 <= i < query.len() && query[i] != ' ' ==> (#[trigger] encoded(query)[i]) == query[i],
{
}

impl SearchQuery {
    /// Normalises `query` for transport.
    pub fn new(query: &str) -> (normalised: Self)
        ensures
            normalised@ == encoded(query@),
    {
        let chars = chars_of(query);
        let mut text = String::new();
        let mut i: usize = 0;
        while i < chars.len()
            invariant
                i <= chars@.len(),
                chars@ == query@,
                text@ == encoded(query@.take(i as int)),
            decreases chars@.len() - i,
        {
            let c = chars[i];
            push_char(&mut text, if c == ' ' { '+' } else { c });
            assert(text@ =~= encoded(query@.take(i + 1)));
            i += 1;
        }
        assert(query@.take(chars@.len() as int) =~= query@);
        SearchQuery { text }
    }

    /// The query as it travels.
    pub fn as_str(&self) -> (text: &str)
        ensures
            text@ == self@,
    {
        self.text.as_str()
    }
}

/// The identities that a run draws from unless the caller brings its own.
pub fn default_identities() -> (pool: Vec<String>)
    ensures
        pool.deep_view() == seq![IDENTITY_CHROME@, IDENTITY_SAFARI@, IDENTITY_FIREFOX@],
{
    let mut pool: Vec<String> = Vec::new();
    pool.push(String::from_str(IDENTITY_CHROME));
    pool.push(String::from_str(IDENTITY_SAFARI));
    pool.push(String::from_str(IDENTITY_FIREFOX));
    assert(pool.deep_view() =~= seq![IDENTITY_CHROME@, IDENTITY_SAFARI@, IDENTITY_FIREFOX@]);
    pool
}

/// The identity that a drawn number picks from the pool; none from an empty
/// pool.
pub fn identity_at(pool: &Vec<String>, drawn: u64) -> (identity: Option<&String>)
    ensures
        pool@.len() == 0 ==> identity is None,
        pool@.len() > 0 ==> identity == Some(&pool@[picked_index(pool@.len(), drawn)]),
{
    let len = pool.len();
    if len == 0 {
        None
    } else if drawn < len as u64 {
        Some(&pool[drawn as usize])
    } else {
        Some(&pool[len - 1])
    }
}

/// Draws one identity from the pool; none from an empty pool.
pub fn choose_identity(pool: &Vec<String>) -> (identity: Option<&String>)
    ensures
        pool@.len() == 0 ==> identity is None,
        pool@.len() > 0 ==> identity is Some && pool@.contains(*identity->0),
{
    let len = pool.len();
    if len == 0 {
        None
    } else {
        let drawn = random_in(0, (len - 1) as u64);
        identity_at(pool, drawn)
    }
}

/// The URL of the search request for `query`.
pub fn search_url(query: &SearchQuery) -> (url: String)
    ensures
        url@ == SEARCH_ENDPOINT@ + query@,
{
    String::from_str(SEARCH_ENDPOINT).concat(query.as_str())
}

/// The search request for `query` under `identity`.
pub fn search_request(query: &str, identity: &str) -> (request: SearchRequest)
    ensures
        request@ == request_for(query@, identity@),
{
    let normalised = SearchQuery::new(query);
    SearchRequest {
        url: search_url(&normalised),
        user_agent: String::from_str(identity),
        accept_language: String::from_str(ACCEPT_LANGUAGE),
    }
}

/// The search request for `query` under an identity drawn from `pool`; none
/// where the pool is empty.
pub fn prepare_search(query: &str, pool: &Vec<String>) -> (request: Option<SearchRequest>)
    ensures
        pool@.len() == 0 ==> request is None,
        pool@.len() > 0 ==> request is Some && exists|i: int|
            0 <= i < pool@.len() && request->0@ == request_for(query@, (#[trigger] pool@[i])@),
{
    match choose_identity(pool) {
        Some(identity) => Some(search_request(query, identity.as_str())),
        None => None,
    }
}

} // verus!
