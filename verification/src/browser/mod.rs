//! Browser automation settings and errors. Launching and driving the browser
//! is left to the application.

pub mod config;
pub mod manager;
pub mod scraper;
