//! The decisions of the browser scraper's waiting loops and the snippets of
//! JavaScript it runs. The application drives the tab: it reports how long
//! it has waited and what it saw, and acts on the step returned.

use crate::browser::manager::BrowserError;
use crate::text::{chars_of, contains_chars, has_sub, lowercase, string_of, to_lowercase};
use vstd::prelude::*;

verus! {

/// The tab is polled every this many milliseconds for a selector.
pub const SELECTOR_POLL_MS: u64 = 100;

/// The tab's title is polled every this many milliseconds during a
/// Cloudflare challenge.
pub const CLOUDFLARE_POLL_MS: u64 = 500;

/// How long the page is given after a Cloudflare challenge has cleared.
pub const CLOUDFLARE_SETTLE_MS: u64 = 2000;

/// The default time a selector is waited for.
pub const DEFAULT_TIMEOUT_SECS: u64 = 30;

/// What a waiting loop does next.
#[derive(Debug, Clone, Copy, PartialEq, Eq, Structural)]
pub enum WaitStep {
    /// What was waited for is there.
    Done,
    /// Wait one polling interval and look again.
    Poll,
    /// Give up.
    TimedOut,
}

/// A wait for a selector: past the timeout it gives up before looking;
/// else it is done when the element was found and polls again when not.
pub open spec fn selector_wait_spec(elapsed_ms: u64, timeout_ms: u64, found: bool) -> WaitStep {
    if elapsed_ms > timeout_ms {
        WaitStep::TimedOut
    } else if found {
        WaitStep::Done
    } else {
        WaitStep::Poll
    }
}

/// The next step of a wait for a selector.
pub fn selector_wait_step(elapsed_ms: u64, timeout_ms: u64, found: bool) -> (s: WaitStep)
    ensures
        s == selector_wait_spec(elapsed_ms, timeout_ms, found),
{
    if elapsed_ms > timeout_ms {
        WaitStep::TimedOut
    } else if found {
        WaitStep::Done
    } else {
        WaitStep::Poll
    }
}

/// A wait for a Cloudflare challenge to clear: past the timeout it gives
/// up; else it is done once the tab's title (where it could be read) no
/// longer holds "just a moment" in lowercase.
pub open spec fn cloudflare_wait_spec(elapsed_ms: u64, timeout_ms: u64, title: Option<Seq<char>>) -> WaitStep {
    if elapsed_ms > timeout_ms {
        WaitStep::TimedOut
    } else {
        match title {
            Some(t) => if !has_sub(lowercase(t), "just a moment"@) {
                WaitStep::Done
            } else {
                WaitStep::Poll
            },
            None => WaitStep::Poll,
        }
    }
}

/// The next step of a wait for a Cloudflare challenge to clear.
pub fn cloudflare_wait_step(elapsed_ms: u64, timeout_ms: u64, title: Option<&str>) -> (s: WaitStep)
    ensures
        s == cloudflare_wait_spec(
            elapsed_ms,
            timeout_ms,
            match title {
                Some(t) => Some(t@),
                None => None,
            },
        ),
{
    if elapsed_ms > timeout_ms {
        return WaitStep::TimedOut;
    }
    match title {
        Some(t) => {
            let lower = to_lowercase(t);
            let l = chars_of(lower.as_str());
            let pat = chars_of("just a moment");
            if !contains_chars(&l, &pat) {
                WaitStep::Done
            } else {
                WaitStep::Poll
            }
        },
        None => WaitStep::Poll,
    }
}

/// The wait after navigating into a Cloudflare challenge, checked once a
/// second: done when the challenge is gone, given up once `max_ms` have
/// passed with it still there.
pub open spec fn bypass_wait_spec(elapsed_ms: u64, max_ms: u64, challenge_present: bool) -> WaitStep {
    if !challenge_present {
        WaitStep::Done
    } else if elapsed_ms >= max_ms {
        WaitStep::TimedOut
    } else {
        WaitStep::Poll
    }
}

/// The next step of the wait after navigating into a Cloudflare challenge.
pub fn bypass_wait_step(elapsed_ms: u64, max_ms: u64, challenge_present: bool) -> (s: WaitStep)
    ensures
        s == bypass_wait_spec(elapsed_ms, max_ms, challenge_present),
{
    if !challenge_present {
        WaitStep::Done
    } else if elapsed_ms >= max_ms {
        WaitStep::TimedOut
    } else {
        WaitStep::Poll
    }
}

/// The selectors whose presence shows a Cloudflare challenge.
pub const CHALLENGE_SELECTORS: [&'static str; 4] = [
    "#cf-challenge-running",
    ".cf-browser-verification",
    "#challenge-running",
    ".challenge-form",
];

/// `s` with each `'` written as `\'`.
pub open spec fn quote_escaped(s: Seq<char>) -> Seq<char>
    decreases s.len(),
{
    if s.len() == 0 {
        s
    } else if s.last() == '\'' {
        quote_escaped(s.drop_last()) + seq!['\\', '\'']
    } else {
        quote_escaped(s.drop_last()).push(s.last())
    }
}

fn quote_escape(s: &str) -> (r: Vec<char>)
    ensures
        r@ == quote_escaped(s@),
{
    let v = chars_of(s);
    let mut out: Vec<char> = Vec::new();
    let mut i: usize = 0;
    while i < v.len()
        invariant
            i <= v@.len(),
            out@ == quote_escaped(v@.take(i as int)),
        decreases v@.len() - i,
    {
        assert(v@.take(i + 1).drop_last() =~= v@.take(i as int));
        if v[i] == '\'' {
            out.push('\\');
            out.push('\'');
            assert(out@ =~= quote_escaped(v@.take(i as int)) + seq!['\\', '\'']);
        } else {
            out.push(v[i]);
        }
        i = i + 1;
    }
    assert(v@.take(v@.len() as int) =~= v@);
    out
}

/// The script that tells whether an element matches the selector.
pub fn selector_probe_script(selector: &str) -> (r: String)
    ensures
        r@ == "document.querySelector('"@ + quote_escaped(selector@) + "') !== null"@,
{
    let mut s = String::from_str("document.querySelector('");
    let e = string_of(&quote_escape(selector));
    s.append(e.as_str());
    s.append("') !== null");
    s
}

/// The script that clicks the element matching the selector.
pub fn click_script(selector: &str) -> (r: String)
    ensures
        r@ == "document.querySelector('"@ + quote_escaped(selector@) + "').click();"@,
{
    let mut s = String::from_str("document.querySelector('");
    let e = string_of(&quote_escape(selector));
    s.append(e.as_str());
    s.append("').click();");
    s
}

/// The script that scrolls to the bottom of the page.
pub const SCROLL_TO_BOTTOM_SCRIPT: &'static str = "window.scrollTo(0, document.body.scrollHeight);";

/// The error of a wait for a selector that timed out.
pub fn selector_timeout_error(selector: &str) -> (e: BrowserError)
    ensures
        e matches BrowserError::Timeout(m) && m@ == "Waiting for selector: "@ + selector@,
{
    let mut m = String::from_str("Waiting for selector: ");
    m.append(selector);
    BrowserError::Timeout(m)
}

/// The error of a Cloudflare challenge that did not clear in time.
pub fn cloudflare_timeout_error() -> (e: BrowserError)
    ensures
        e matches BrowserError::Timeout(m) && m@ == "Cloudflare challenge timeout"@,
{
    BrowserError::Timeout(String::from_str("Cloudflare challenge timeout"))
}

} // verus!
