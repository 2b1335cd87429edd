//! The monitor's configuration: one immutable value, built once at
//! startup and passed explicitly to whoever needs it.

use vstd::prelude::*;
use crate::strutil::{parse_u64, spec_all_digits, spec_digits_val};

verus! {

/// Probe timeout when none is configured, in milliseconds.
pub const DEFAULT_TIMEOUT_MS: u64 = 10000;

/// Rescan interval when none is configured, in seconds.
pub const DEFAULT_RESCAN_INTERVAL: u64 = 300;

/// Cap on simultaneous in-flight probes when none is configured.
pub const DEFAULT_PROBE_WORKERS: u64 = 8;

/// What a configuration text means as a number: its digits, or the
/// default wherever it is absent, malformed or out of range.
pub open spec fn spec_u64_or(v: Option<Seq<char>>, default: u64) -> u64 {
    match v {
        Some(s) => if s.len() > 0 && spec_all_digits(s) && spec_digits_val(s) <= u64::MAX {
            spec_digits_val(s) as u64
        } else {
            default
        },
        None => default,
    }
}

/// Reads one numeric configuration value, falling back to the default.
pub fn u64_or(v: Option<&str>, default: u64) -> (r: u64)
    ensures
        r == spec_u64_or(
            match v {
                Some(s) => Some(s@),
                None => None,
            },
            default,
        ),
{
    match v {
        Some(s) => match parse_u64(s) {
            Some(n) => n,
            None => default,
        },
        None => default,
    }
}

/// The settings the core consumes.  The probe timeout bounds one
/// transport call; the rescan interval debounces repeated checks of
/// one target; the worker bound caps simultaneous in-flight probes of
/// the background loop.
#[derive(Copy, Clone, Debug, PartialEq, Eq, Structural)]
pub struct Config {
    pub timeout_ms: u64,
    pub rescan_interval: u64,
    pub probe_workers: u64,
}

impl Config {
    pub fn new(timeout_ms: u64, rescan_interval: u64, probe_workers: u64) -> (c: Config)
        ensures
            c == (Config { timeout_ms, rescan_interval, probe_workers }),
    {
        Config { timeout_ms, rescan_interval, probe_workers }
    }

    /// Builds the configuration from the raw environment texts, taking
    /// the default for whatever is absent or malformed.
    pub fn from_env_values(timeout: Option<&str>, interval: Option<&str>, workers: Option<&str>)
        -> (c: Config)
        ensures
            c.timeout_ms == spec_u64_or(
                match timeout {
                    Some(s) => Some(s@),
                    None => None,
                },
                DEFAULT_TIMEOUT_MS,
            ),
            c.rescan_interval == spec_u64_or(
                match interval {
                    Some(s) => Some(s@),
                    None => None,
                },
                DEFAULT_RESCAN_INTERVAL,
            ),
            c.probe_workers == spec_u64_or(
                match workers {
                    Some(s) => Some(s@),
                    None => None,
                },
                DEFAULT_PROBE_WORKERS,
            ),
    {
        Config {
            timeout_ms: u64_or(timeout, DEFAULT_TIMEOUT_MS),
            rescan_interval: u64_or(interval, DEFAULT_RESCAN_INTERVAL),
            probe_workers: u64_or(workers, DEFAULT_PROBE_WORKERS),
        }
    }
}

impl Default for Config {
    fn default() -> (c: Config)
        ensures
            c.timeout_ms == DEFAULT_TIMEOUT_MS,
            c.rescan_interval == DEFAULT_RESCAN_INTERVAL,
            c.probe_workers == DEFAULT_PROBE_WORKERS,
    {
        Config {
            timeout_ms: DEFAULT_TIMEOUT_MS,
            rescan_interval: DEFAULT_RESCAN_INTERVAL,
            probe_workers: DEFAULT_PROBE_WORKERS,
        }
    }
}

} // verus!
