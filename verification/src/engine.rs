//! What is fixed about the search engine's HTML interface.

use vstd::prelude::*;

verus! {

/// The engine's own domain. A destination whose host holds it is the
/// engine's own link, not a result.
pub const ENGINE_DOMAIN: &'static str = "duckduckgo.com";

/// The origin against which the engine's origin-relative links are read.
pub const ENGINE_ORIGIN: &'static str = "https://duckduckgo.com";

/// The HTML search endpoint, up to and including the query key.
pub const SEARCH_ENDPOINT: &'static str = "https://duckduckgo.com/html/?q=";

/// The query key under which a result link carries its destination.
pub const REDIRECT_PARAMETER: &'static str = "uddg";

/// The CSS selector of the engine's result links.
pub const RESULT_LINK_SELECTOR: &'static str = "a.result__a";

/// The attribute of a result link that holds the redirect URL.
pub const LINK_ATTRIBUTE: &'static str = "href";

/// The CSS selector of the text-bearing elements of a target page.
pub const PARAGRAPH_SELECTOR: &'static str = "p";

/// The value of the `Accept-Language` header of the search request.
pub const ACCEPT_LANGUAGE: &'static str = "en-US,en;q=0.9";

/// The scheme prefix put before a protocol-relative link.
pub const SECURE_SCHEME: &'static str = "https:";

} // verus!
