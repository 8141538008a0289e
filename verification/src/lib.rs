//! Metrics from the status page of an Apache httpd server.
//!
//! The server reports on itself in plain text, one `Key: value` per line.
//! [`parser`] turns such a report into metrics and per-line errors;
//! [`source`] decides when the endpoints are scraped and what an answer
//! gives; [`config`] builds a source; [`internal_events`] says what a scrape
//! reports about itself. [`properties`] holds what is proved of all of this.
//!
//! The library sends no request and keeps no time: it is handed what happened
//! and says what follows.

pub mod config;
pub mod internal_events;
pub mod metric;
pub mod number;
pub mod parser;
pub mod properties;
pub mod source;
pub mod text;
