//! Settings of the headless browser client used for JavaScript-rendered
//! sites. Driving the browser is left to the application.

use crate::clock::{duration_from_secs, duration_of_secs};
use std::time::Duration;
use vstd::prelude::*;

verus! {

/// Configuration for the headless browser.
pub struct BrowserConfig {
    pub headless: bool,
    pub window_width: u32,
    pub window_height: u32,
    pub timeout: Duration,
    pub disable_images: bool,
    pub user_agent: Option<String>,
}

/// The desktop Chrome user agent the browser client announces by default.
pub open spec fn chrome_120_user_agent() -> Seq<char> {
    "Mozilla/5.0 (Windows NT 10.0; Win64; x64) AppleWebKit/537.36 (KHTML, like Gecko) Chrome/120.0.0.0 Safari/537.36"@
}

impl Default for BrowserConfig {
    fn default() -> (c: Self)
        ensures
            c.headless,
            c.window_width == 1920,
            c.window_height == 1080,
            c.timeout == duration_of_secs(30),
            c.disable_images,
            c.user_agent matches Some(ua) && ua@ == chrome_120_user_agent(),
    {
        BrowserConfig {
            headless: true,
            window_width: 1920,
            window_height: 1080,
            timeout: duration_from_secs(30),
            disable_images: true,
            user_agent: Some(
                String::from_str(
                    "Mozilla/5.0 (Windows NT 10.0; Win64; x64) AppleWebKit/537.36 (KHTML, like Gecko) Chrome/120.0.0.0 Safari/537.36",
                ),
            ),
        }
    }
}

/// The Chrome command-line flags the browser is launched with: the fixed
/// anti-detection flags, then the image switch when images are off, then the
/// user agent when one is set.
pub open spec fn launch_args(disable_images: bool, user_agent: Option<Seq<char>>) -> Seq<Seq<char>> {
    let fixed = seq![
        "--disable-blink-features=AutomationControlled"@,
        "--disable-dev-shm-usage"@,
        "--no-sandbox"@,
        "--disable-setuid-sandbox"@,
        "--disable-web-security"@,
        "--disable-features=IsolateOrigins,site-per-process"@,
    ];
    let with_images = if disable_images {
        fixed.push("--blink-settings=imagesEnabled=false"@)
    } else {
        fixed
    };
    match user_agent {
        Some(ua) => with_images.push("--user-agent="@ + ua),
        None => with_images,
    }
}

impl BrowserConfig {
    /// The Chrome flags this configuration launches the browser with.
    pub fn launch_args(&self) -> (args: Vec<String>)
        ensures
            crate::browser::config::string_views(args@) == launch_args(
                self.disable_images,
                crate::helpers::opt_string_view(self.user_agent),
            ),
    {
        let mut args: Vec<String> = Vec::new();
        args.push(String::from_str("--disable-blink-features=AutomationControlled"));
        args.push(String::from_str("--disable-dev-shm-usage"));
        args.push(String::from_str("--no-sandbox"));
        args.push(String::from_str("--disable-setuid-sandbox"));
        args.push(String::from_str("--disable-web-security"));
        args.push(String::from_str("--disable-features=IsolateOrigins,site-per-process"));
        if self.disable_images {
            args.push(String::from_str("--blink-settings=imagesEnabled=false"));
        }
        match &self.user_agent {
            Some(ua) => {
                let mut a = String::from_str("--user-agent=");
                a.append(ua.as_str());
                args.push(a);
            },
            None => {},
        }
        assert(crate::browser::config::string_views(args@) =~= launch_args(
            self.disable_images,
            crate::helpers::opt_string_view(self.user_agent),
        ));
        args
    }
}

} // verus!
