pub mod app_state;
pub mod browser;
pub mod browser_client;
pub mod clock;
pub mod cloudflare_bypass;
pub mod config;
pub mod crawler;
pub mod db;
pub mod helpers;
pub mod http_client;
pub mod metadata;
pub mod metrics;
pub mod models;
pub mod scraper;
pub mod server;
pub mod source_utils;
pub mod text;
