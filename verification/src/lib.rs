//! Verified core of a terminal calendar that merges Google and Outlook events.

pub mod text;
pub mod oauth;
pub mod pkce;
pub mod calendar;
pub mod timeline;
pub mod dates;
pub mod zones;
pub mod ics_source;
pub mod ics;
pub mod config;
pub mod google;
pub mod vdir;
pub mod app;
pub mod numbers;
pub mod notify;
pub mod palette;
pub mod detail;
pub mod help;
pub mod keys;
pub mod settings;
pub mod timeline_view;
pub mod screen;
