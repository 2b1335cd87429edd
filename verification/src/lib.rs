//! Core of a reachability monitor for a set of URLs.
//!
//! Each monitored target carries one cached status record (up, down, or
//! unknown, with the time it was last probed).  The modules here hold the
//! verified decision logic: turning a raw probe outcome into a status,
//! escalating suspected anti-bot interstitials to a challenge solver,
//! debouncing repeated checks, keeping the record store consistent, and
//! planning the background rescan.  Network and process plumbing (HTTP,
//! the persistent store's wire protocol, the REST surface) live outside
//! this crate and hand plain values in and out.

pub mod classify;
pub mod config;
pub mod outcome;
pub mod prober;
pub mod scheduler;
pub mod status;
pub mod store;
pub mod strutil;
