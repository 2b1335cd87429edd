//! The three-valued status of a monitored target and its cached record.

use vstd::prelude::*;
use crate::strutil::str_eq;

verus! {

/// Classification of a monitored target's reachability.
#[derive(Copy, Clone, Debug, PartialEq, Eq, Structural)]
pub enum Status {
    Up,
    Down,
    Unknown,
}

impl Status {
    /// The canonical textual form of this status.
    pub open spec fn spec_str(self) -> Seq<char> {
        match self {
            Status::Up => "up"@,
            Status::Down => "down"@,
            Status::Unknown => "unknown"@,
        }
    }

    pub fn to_str(self) -> (r: &'static str)
        ensures
            r@ == self.spec_str(),
    {
        match self {
            Status::Up => "up",
            Status::Down => "down",
            Status::Unknown => "unknown",
        }
    }

    /// Reading a status back from text: anything but the two definite
    /// forms is taken as `Unknown`.
    pub open spec fn spec_from_str(s: Seq<char>) -> Status {
        if s == "up"@ {
            Status::Up
        } else if s == "down"@ {
            Status::Down
        } else {
            Status::Unknown
        }
    }

    pub fn from_str(s: &str) -> (r: Status)
        ensures
            r == Status::spec_from_str(s@),
    {
        if str_eq(s, "up") {
            Status::Up
        } else if str_eq(s, "down") {
            Status::Down
        } else {
            Status::Unknown
        }
    }
}

/// Writing a status out and reading it back yields the same status.
pub proof fn lemma_status_str_round_trip(s: Status)
    ensures
        Status::spec_from_str(s.spec_str()) == s,
{
    reveal_strlit("up");
    reveal_strlit("down");
    reveal_strlit("unknown");
    assert("up"@.len() == 2);
    assert("down"@.len() == 4);
    assert("unknown"@.len() == 7);
    match s {
        Status::Up => {
            assert(s.spec_str() == "up"@);
        }
        Status::Down => {
            assert("down"@ != "up"@);
        }
        Status::Unknown => {
            assert("unknown"@ != "up"@);
            assert("unknown"@ != "down"@);
        }
    }
}

/// The cached status record for one monitored URL.
#[derive(Debug, Clone)]
pub struct Website {
    pub time: u64,
    pub url: String,
    pub status: Status,
}

/// Mathematical model of a `Website` record.
pub struct RecordModel {
    pub url: Seq<char>,
    pub time: u64,
    pub status: Status,
}

impl View for Website {
    type V = RecordModel;

    open spec fn view(&self) -> RecordModel {
        RecordModel { url: self.url@, time: self.time, status: self.status }
    }
}

} // verus!
