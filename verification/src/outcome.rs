//! What a single probe of a target can come back with.

use vstd::prelude::*;
use crate::strutil::str_eq;

verus! {

/// One response header: a name and a value.  The transport edge hands
/// names in lowercased, as HTTP header names are case-insensitive.
#[derive(Debug)]
pub struct HeaderEntry {
    pub name: String,
    pub value: String,
}

impl View for HeaderEntry {
    type V = (Seq<char>, Seq<char>);

    open spec fn view(&self) -> (Seq<char>, Seq<char>) {
        (self.name@, self.value@)
    }
}

/// The response headers of one probe, in arrival order.
#[derive(Debug)]
pub struct Headers {
    pub entries: Vec<HeaderEntry>,
}

/// The value of the first header with the given name, if any.
pub open spec fn spec_header_value(hs: Seq<(Seq<char>, Seq<char>)>, name: Seq<char>) -> Option<
    Seq<char>,
>
    decreases hs.len(),
{
    if hs.len() == 0 {
        None
    } else if hs[0].0 == name {
        Some(hs[0].1)
    } else {
        spec_header_value(hs.drop_first(), name)
    }
}

/// When no header among the first `i` has the given name, the lookup is
/// decided by the rest of the sequence.
proof fn lemma_header_value_after_skip(
    hs: Seq<(Seq<char>, Seq<char>)>,
    name: Seq<char>,
    i: int,
)
    requires
        0 <= i <= hs.len(),
        forall|j: int| 0 <= j < i ==> hs[j].0 != name,
    ensures
        spec_header_value(hs, name) == spec_header_value(hs.skip(i), name),
    decreases i,
{
    if i > 0 {
        let tail = hs.drop_first();
        assert(tail =~= hs.skip(1));
        lemma_header_value_after_skip(tail, name, i - 1);
        assert(tail.skip(i - 1) =~= hs.skip(i));
    } else {
        assert(hs.skip(0) =~= hs);
    }
}

impl View for Headers {
    type V = Seq<(Seq<char>, Seq<char>)>;

    open spec fn view(&self) -> Seq<(Seq<char>, Seq<char>)> {
        self.entries@.map_values(|e: HeaderEntry| e@)
    }
}

impl Headers {
    pub fn new() -> (h: Headers)
        ensures
            h@ =~= Seq::<(Seq<char>, Seq<char>)>::empty(),
    {
        Headers { entries: Vec::new() }
    }

    pub fn push(&mut self, name: String, value: String)
        ensures
            final(self)@ =~= old(self)@.push((name@, value@)),
    {
        self.entries.push(HeaderEntry { name, value });
    }

    pub fn get<'a>(&'a self, name: &str) -> (r: Option<&'a String>)
        ensures
            match r {
                Some(v) => spec_header_value(self@, name@) == Some(v@),
                None => spec_header_value(self@, name@) is None,
            },
    {
        let n = self.entries.len();
        let mut i: usize = 0;
        while i < n
            invariant
                n == self.entries.len(),
                i <= n,
                forall|j: int| 0 <= j < i ==> self@[j].0 != name@,
            decreases n - i,
        {
            let e = &self.entries[i];
            if str_eq(e.name.as_str(), name) {
                proof {
                    lemma_header_value_after_skip(self@, name@, i as int);
                    assert(self@.skip(i as int)[0] == self@[i as int]);
                }
                return Some(&e.value);
            }
            i += 1;
        }
        proof {
            lemma_header_value_after_skip(self@, name@, n as int);
            assert(self@.skip(n as int) =~= Seq::<(Seq<char>, Seq<char>)>::empty());
        }
        None
    }
}

/// The kind of a failed transport attempt.
#[derive(Copy, Clone, Debug, PartialEq, Eq, Structural)]
pub enum FailureKind {
    Timeout,
    Connect,
    Tls,
    Decode,
    RedirectLoop,
    Other,
}

/// The result of one transport call against a target.
#[derive(Debug)]
pub enum ProbeOutcome {
    Responded { code: u16, headers: Headers },
    Failed { kind: FailureKind },
}

/// What the challenge-solving fallback came back with.
#[derive(Copy, Clone, Debug, PartialEq, Eq, Structural)]
pub enum ChallengeResult {
    Solved { code: u16 },
    Unavailable,
}

impl ChallengeResult {
    /// How a raw answer of the challenge-solving service folds into a
    /// result: without a configured endpoint, or without a status code
    /// out of its answer, the solver is unavailable.
    pub open spec fn spec_from_response(configured: bool, code: Option<u16>) -> ChallengeResult {
        match code {
            Some(c) => if configured {
                ChallengeResult::Solved { code: c }
            } else {
                ChallengeResult::Unavailable
            },
            None => ChallengeResult::Unavailable,
        }
    }

    pub fn from_response(configured: bool, code: Option<u16>) -> (r: ChallengeResult)
        ensures
            r == ChallengeResult::spec_from_response(configured, code),
    {
        match code {
            Some(c) => if configured {
                ChallengeResult::Solved { code: c }
            } else {
                ChallengeResult::Unavailable
            },
            None => ChallengeResult::Unavailable,
        }
    }
}

} // verus!
