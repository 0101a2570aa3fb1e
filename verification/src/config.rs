//! Application configuration and the bot-detection settings it carries.

use crate::browser_client::BrowserConfig;
use crate::clock::{duration_from_secs, duration_of_secs};
use crate::http_client::HttpClientConfig;
use vstd::prelude::*;

verus! {

/// Application configuration.
pub struct Config {
    pub download_dir: String,
    pub bot_detection: BotDetectionConfig,
}

/// Settings of the measures against bot detection.
pub struct BotDetectionConfig {
    /// Enable enhanced HTTP client with retry logic
    pub enable_enhanced_client: bool,
    /// Enable headless browser for JavaScript-rendered sites
    pub enable_browser: bool,
    /// Maximum number of retry attempts for failed requests
    pub max_retries: usize,
    /// Initial retry delay in milliseconds
    pub initial_retry_delay_ms: u64,
    /// Maximum retry delay in milliseconds
    pub max_retry_delay_ms: u64,
    /// Timeout for HTTP requests in seconds
    pub timeout_secs: u64,
    /// Enable cookie support
    pub enable_cookies: bool,
    /// Enable gzip/brotli compression
    pub enable_compression: bool,
    /// Browser timeout in seconds (for JavaScript-rendered sites)
    pub browser_timeout_secs: u64,
    /// Browser headless mode
    pub browser_headless: bool,
    /// Disable images in browser (faster loading)
    pub browser_disable_images: bool,
    /// Rate limiting delay between requests in milliseconds
    pub rate_limit_delay_ms: u64,
}

/// Default for options that are on unless configured otherwise.
pub fn default_true() -> (b: bool)
    ensures
        b,
{
    true
}

/// Default for options that are off unless configured otherwise.
pub fn default_false() -> (b: bool)
    ensures
        !b,
{
    false
}

/// Default number of retries.
pub fn default_max_retries() -> (n: usize)
    ensures
        n == 4,
{
    4
}

/// Default first retry delay in milliseconds.
pub fn default_initial_retry_delay() -> (n: u64)
    ensures
        n == 500,
{
    500
}

/// Default longest retry delay in milliseconds.
pub fn default_max_retry_delay() -> (n: u64)
    ensures
        n == 8000,
{
    8000
}

/// Default request timeout in seconds.
pub fn default_timeout() -> (n: u64)
    ensures
        n == 30,
{
    30
}

/// Default browser timeout in seconds.
pub fn default_browser_timeout() -> (n: u64)
    ensures
        n == 30,
{
    30
}

/// Default delay between requests in milliseconds.
pub fn default_rate_limit() -> (n: u64)
    ensures
        n == 300,
{
    300
}

/// The default bot-detection settings: enhanced client on, browser off (it
/// needs Chrome), 4 retries from 500 ms up to 8000 ms, 30 s timeouts,
/// cookies, compression, headless browser without images, 300 ms between
/// requests.
pub open spec fn is_default_bot_detection(c: BotDetectionConfig) -> bool {
    &&& c.enable_enhanced_client
    &&& !c.enable_browser
    &&& c.max_retries == 4
    &&& c.initial_retry_delay_ms == 500
    &&& c.max_retry_delay_ms == 8000
    &&& c.timeout_secs == 30
    &&& c.enable_cookies
    &&& c.enable_compression
    &&& c.browser_timeout_secs == 30
    &&& c.browser_headless
    &&& c.browser_disable_images
    &&& c.rate_limit_delay_ms == 300
}

impl Default for BotDetectionConfig {
    fn default() -> (c: Self)
        ensures
            is_default_bot_detection(c),
    {
        BotDetectionConfig {
            enable_enhanced_client: true,
            enable_browser: false,
            max_retries: 4,
            initial_retry_delay_ms: 500,
            max_retry_delay_ms: 8000,
            timeout_secs: 30,
            enable_cookies: true,
            enable_compression: true,
            browser_timeout_secs: 30,
            browser_headless: true,
            browser_disable_images: true,
            rate_limit_delay_ms: 300,
        }
    }
}

impl Default for Config {
    fn default() -> (c: Self)
        ensures
            c.download_dir@ == "downloads"@,
            is_default_bot_detection(c.bot_detection),
    {
        Config {
            download_dir: String::from_str("downloads"),
            bot_detection: BotDetectionConfig::default(),
        }
    }
}

/// The message with which a browser client is refused when the browser is off.
pub open spec fn browser_disabled_message() -> Seq<char> {
    "Browser client is disabled in configuration"@
}

impl BotDetectionConfig {
    /// The settings of the HTTP client these options create: the same
    /// timeout (in seconds), retries, delays, cookie switch, and compression
    /// as gzip. The client itself is built from them by the application.
    pub fn create_http_client(&self) -> (c: HttpClientConfig)
        ensures
            c.timeout == duration_of_secs(self.timeout_secs),
            c.max_retries == self.max_retries,
            c.initial_retry_delay_ms == self.initial_retry_delay_ms,
            c.max_retry_delay_ms == self.max_retry_delay_ms,
            c.enable_cookies == self.enable_cookies,
            c.enable_gzip == self.enable_compression,
    {
        HttpClientConfig {
            timeout: duration_from_secs(self.timeout_secs),
            max_retries: self.max_retries,
            initial_retry_delay_ms: self.initial_retry_delay_ms,
            max_retry_delay_ms: self.max_retry_delay_ms,
            enable_cookies: self.enable_cookies,
            enable_gzip: self.enable_compression,
        }
    }

    /// The settings of the browser client these options create, or the
    /// refusal message when the browser is disabled: 1920x1080, the
    /// configured timeout, headless and image switches, and the desktop
    /// Chrome 120 user agent. The browser itself is launched by the
    /// application.
    pub fn create_browser_client(&self) -> (r: Result<BrowserConfig, String>)
        ensures
            !self.enable_browser <==> r is Err,
            r matches Err(m) ==> m@ == browser_disabled_message(),
            r matches Ok(c) ==> {
                &&& c.headless == self.browser_headless
                &&& c.window_width == 1920
                &&& c.window_height == 1080
                &&& c.timeout == duration_of_secs(self.browser_timeout_secs)
                &&& c.disable_images == self.browser_disable_images
                &&& c.user_agent matches Some(ua) && ua@
                    == crate::browser_client::chrome_120_user_agent()
            },
    {
        if !self.enable_browser {
            return Err(String::from_str("Browser client is disabled in configuration"));
        }
        Ok(
            BrowserConfig {
                headless: self.browser_headless,
                window_width: 1920,
                window_height: 1080,
                timeout: duration_from_secs(self.browser_timeout_secs),
                disable_images: self.browser_disable_images,
                user_agent: Some(
                    String::from_str(
                        "Mozilla/5.0 (Windows NT 10.0; Win64; x64) AppleWebKit/537.36 (KHTML, like Gecko) Chrome/120.0.0.0 Safari/537.36",
                    ),
                ),
            },
        )
    }
}

} // verus!
