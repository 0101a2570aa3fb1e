//! Settings of a headless browser instance.

use crate::clock::{duration_from_secs, duration_of_secs};
use std::time::Duration;
use vstd::prelude::*;

verus! {

/// Configuration for browser instances.
#[derive(Debug)]
pub struct BrowserConfig {
    /// Run browser in headless mode
    pub headless: bool,
    /// Browser window size
    pub window_size: (u32, u32),
    /// Custom user agent
    pub user_agent: Option<String>,
    /// Navigation timeout in seconds
    pub timeout_seconds: u64,
    /// Disable image loading for performance
    pub disable_images: bool,
    /// Additional Chrome flags
    pub chrome_flags: Vec<String>,
}

/// The views of a list of strings.
pub open spec fn string_views(v: Seq<String>) -> Seq<Seq<char>> {
    v.map_values(|s: String| s@)
}

/// The user agent of the default settings.
pub open spec fn default_user_agent() -> Seq<char> {
    "Mozilla/5.0 (Windows NT 10.0; Win64; x64) AppleWebKit/537.36 (KHTML, like Gecko) Chrome/121.0.0.0 Safari/537.36"@
}

/// The default settings: headless, 1920x1080, a desktop Chrome user agent,
/// 30 s timeout, images off, no extra flags.
pub open spec fn is_default_browser_config(c: BrowserConfig) -> bool {
    &&& c.headless
    &&& c.window_size == (1920u32, 1080u32)
    &&& c.user_agent matches Some(ua) && ua@ == default_user_agent()
    &&& c.timeout_seconds == 30
    &&& c.disable_images
    &&& c.chrome_flags@.len() == 0
}

impl Default for BrowserConfig {
    fn default() -> (c: Self)
        ensures
            is_default_browser_config(c),
    {
        BrowserConfig {
            headless: true,
            window_size: (1920, 1080),
            user_agent: Some(
                String::from_str(
                    "Mozilla/5.0 (Windows NT 10.0; Win64; x64) AppleWebKit/537.36 (KHTML, like Gecko) Chrome/121.0.0.0 Safari/537.36",
                ),
            ),
            timeout_seconds: 30,
            disable_images: true,
            chrome_flags: Vec::new(),
        }
    }
}

impl BrowserConfig {
    /// The default settings with flags that hide automation from anti-bot checks.
    pub fn stealth_mode() -> (c: Self)
        ensures
            c.headless,
            c.window_size == (1920u32, 1080u32),
            c.user_agent matches Some(ua) && ua@ == default_user_agent(),
            c.timeout_seconds == 30,
            c.disable_images,
            string_views(c.chrome_flags@) == seq![
                "--disable-blink-features=AutomationControlled"@,
                "--disable-dev-shm-usage"@,
                "--no-sandbox"@,
            ],
    {
        let mut config = Self::default();
        let mut flags: Vec<String> = Vec::new();
        flags.push(String::from_str("--disable-blink-features=AutomationControlled"));
        flags.push(String::from_str("--disable-dev-shm-usage"));
        flags.push(String::from_str("--no-sandbox"));
        config.chrome_flags = flags;
        assert(string_views(config.chrome_flags@) =~= seq![
            "--disable-blink-features=AutomationControlled"@,
            "--disable-dev-shm-usage"@,
            "--no-sandbox"@,
        ]);
        config
    }

    /// The default settings with a visible browser that loads images.
    pub fn debug_mode() -> (c: Self)
        ensures
            !c.headless,
            c.window_size == (1920u32, 1080u32),
            c.user_agent matches Some(ua) && ua@ == default_user_agent(),
            c.timeout_seconds == 30,
            !c.disable_images,
            c.chrome_flags@.len() == 0,
    {
        let mut config = Self::default();
        config.headless = false;
        config.disable_images = false;
        config
    }

    /// The navigation timeout as a `Duration`.
    pub fn timeout(&self) -> (d: Duration)
        ensures
            d == duration_of_secs(self.timeout_seconds),
    {
        duration_from_secs(self.timeout_seconds)
    }
}

} // verus!
