//! Choice of the way a source's pages are fetched.

use crate::text::{chars_of, contains_chars, has_sub};
use vstd::prelude::*;

verus! {

/// Source fetch strategy.
#[derive(Clone, Debug, PartialEq, Eq, Structural)]
pub enum FetchStrategy {
    /// Use standard HTTP client (fast, but may be blocked)
    Standard,
    /// Use enhanced HTTP client with retry and better headers
    Enhanced,
    /// Use headless browser (slow, but bypasses JS and Cloudflare)
    Browser,
}

/// The domains whose pages need a headless browser.
pub open spec fn needs_browser(url: Seq<char>) -> bool {
    ||| has_sub(url, "asmotoon.com"@)
    ||| has_sub(url, "hivetoons.com"@)
    ||| has_sub(url, "kenscans.com"@)
    ||| has_sub(url, "qiscans.org"@)
    ||| has_sub(url, "nyxscans.com"@)
}

/// The strategy for a URL: the browser for the domains that need it, the
/// enhanced client for everything else (Cloudflare-protected domains among
/// them).
pub open spec fn strategy_for(url: Seq<char>) -> FetchStrategy {
    if needs_browser(url) {
        FetchStrategy::Browser
    } else {
        FetchStrategy::Enhanced
    }
}

/// Detects the best fetch strategy for a URL from the domains it contains.
pub fn detect_strategy(url: &str) -> (s: FetchStrategy)
    ensures
        s == strategy_for(url@),
{
    let u = chars_of(url);
    if contains_chars(&u, &chars_of("asmotoon.com")) || contains_chars(&u, &chars_of("hivetoons.com"))
        || contains_chars(&u, &chars_of("kenscans.com")) || contains_chars(&u, &chars_of("qiscans.org"))
        || contains_chars(&u, &chars_of("nyxscans.com")) {
        return FetchStrategy::Browser;
    }
    if contains_chars(&u, &chars_of("drakecomic.com")) || contains_chars(
        &u,
        &chars_of("madarascans.com"),
    ) || contains_chars(&u, &chars_of("rizzfables.com")) {
        return FetchStrategy::Enhanced;
    }
    FetchStrategy::Enhanced
}

/// The standard client is never chosen automatically.
pub proof fn lemma_strategy_never_standard(url: Seq<char>)
    ensures
        strategy_for(url) != FetchStrategy::Standard,
{
}

} // verus!
