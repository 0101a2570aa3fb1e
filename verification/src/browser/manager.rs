//! Errors of browser operations.

use vstd::prelude::*;

verus! {

/// Errors that can occur during browser operations.
#[derive(Debug)]
pub enum BrowserError {
    InitializationError(String),
    ConfigurationError(String),
    TabCreationError(String),
    NavigationError(String),
    ElementNotFound(String),
    Timeout(String),
    JavaScriptError(String),
    HtmlExtractionError(String),
}

/// The message an error is shown with.
pub open spec fn browser_error_message(e: BrowserError) -> Seq<char> {
    match e {
        BrowserError::InitializationError(s) => "Browser initialization failed: "@ + s@,
        BrowserError::ConfigurationError(s) => "Browser configuration error: "@ + s@,
        BrowserError::TabCreationError(s) => "Tab creation failed: "@ + s@,
        BrowserError::NavigationError(s) => "Navigation error: "@ + s@,
        BrowserError::ElementNotFound(s) => "Element not found: "@ + s@,
        BrowserError::Timeout(s) => "Timeout waiting for: "@ + s@,
        BrowserError::JavaScriptError(s) => "JavaScript execution error: "@ + s@,
        BrowserError::HtmlExtractionError(s) => "HTML extraction error: "@ + s@,
    }
}

impl BrowserError {
    /// The message this error is shown with.
    pub fn message(&self) -> (m: String)
        ensures
            m@ == browser_error_message(*self),
    {
        let (prefix, detail) = match self {
            BrowserError::InitializationError(s) => ("Browser initialization failed: ", s),
            BrowserError::ConfigurationError(s) => ("Browser configuration error: ", s),
            BrowserError::TabCreationError(s) => ("Tab creation failed: ", s),
            BrowserError::NavigationError(s) => ("Navigation error: ", s),
            BrowserError::ElementNotFound(s) => ("Element not found: ", s),
            BrowserError::Timeout(s) => ("Timeout waiting for: ", s),
            BrowserError::JavaScriptError(s) => ("JavaScript execution error: ", s),
            BrowserError::HtmlExtractionError(s) => ("HTML extraction error: ", s),
        };
        let mut m = String::from_str(prefix);
        m.append(detail.as_str());
        m
    }
}

} // verus!
