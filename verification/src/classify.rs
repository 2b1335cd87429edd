//! Turning a probe outcome into a status.
//!
//! A failed transport attempt is `Down`.  A success or redirect code is
//! `Up`.  Any other code is `Down`, unless the response looks like an
//! anti-bot interstitial rather than a true failure: a `cloudflare`
//! front with a code outside the honest origin-failure set, or a
//! `ddos-guard` front with any code, escalates to the challenge-solving
//! fallback.  A solved challenge with a success code is `Up`; anything
//! else the fallback says — including its own absence — is `Unknown`,
//! never `Down`.

use vstd::prelude::*;
use crate::outcome::{ChallengeResult, Headers, ProbeOutcome, spec_header_value};
use crate::status::Status;
use crate::strutil::str_eq;

verus! {

/// What the direct inspection of an outcome decides: a final status, or
/// a hand-off to the challenge-solving fallback.
#[derive(Copy, Clone, Debug, PartialEq, Eq, Structural)]
pub enum Verdict {
    Decided(Status),
    Escalate,
}

/// Codes that count as reachable on their own: success or redirect.
pub open spec fn spec_code_reachable(code: u16) -> bool {
    200 <= code <= 399
}

/// Origin-failure codes that a cloudflare front still reports honestly.
/// A different code together with a `cloudflare` server header is taken
/// for a challenge page, not for a true failure.
pub open spec fn spec_real_cf_down(code: u16) -> bool {
    code == 500 || code == 502 || code == 504 || (520 <= code <= 527)
}

pub fn is_real_cf_down(code: u16) -> (r: bool)
    ensures
        r == spec_real_cf_down(code),
{
    code == 500 || code == 502 || code == 504 || (520 <= code && code <= 527)
}

/// Whether a non-reachable response escalates, going by its `server`
/// header: either of the two front-end names suffices on its own.
pub open spec fn spec_server_escalates(code: u16, server: Option<Seq<char>>) -> bool {
    ||| (server == Some("cloudflare"@) && !spec_real_cf_down(code))
    ||| server == Some("ddos-guard"@)
}

/// The direct verdict on one probe outcome.
pub open spec fn spec_verdict(o: ProbeOutcome) -> Verdict {
    match o {
        ProbeOutcome::Failed { kind } => Verdict::Decided(Status::Down),
        ProbeOutcome::Responded { code, headers } => {
            if spec_code_reachable(code) {
                Verdict::Decided(Status::Up)
            } else if spec_server_escalates(code, spec_header_value(headers@, "server"@)) {
                Verdict::Escalate
            } else {
                Verdict::Decided(Status::Down)
            }
        },
    }
}

pub fn classify_outcome(o: &ProbeOutcome) -> (v: Verdict)
    ensures
        v == spec_verdict(*o),
{
    match o {
        ProbeOutcome::Failed { .. } => Verdict::Decided(Status::Down),
        ProbeOutcome::Responded { code, headers } => {
            if 200 <= *code && *code <= 399 {
                Verdict::Decided(Status::Up)
            } else {
                match headers.get("server") {
                    Some(server) => {
                        if (str_eq(server.as_str(), "cloudflare") && !is_real_cf_down(*code))
                            || str_eq(server.as_str(), "ddos-guard") {
                            Verdict::Escalate
                        } else {
                            Verdict::Decided(Status::Down)
                        }
                    },
                    None => Verdict::Decided(Status::Down),
                }
            }
        },
    }
}

/// Codes with which a solved challenge counts as reachable.
pub open spec fn spec_challenge_ok(code: u16) -> bool {
    code == 200 || code == 300 || code == 301 || code == 302 || code == 307 || code == 308
}

/// How an escalated check folds the fallback's answer into a status.
pub open spec fn spec_resolve(c: ChallengeResult) -> Status {
    match c {
        ChallengeResult::Solved { code } => if spec_challenge_ok(code) {
            Status::Up
        } else {
            Status::Unknown
        },
        ChallengeResult::Unavailable => Status::Unknown,
    }
}

pub fn resolve_challenge(c: &ChallengeResult) -> (s: Status)
    ensures
        s == spec_resolve(*c),
{
    match c {
        ChallengeResult::Solved { code } => {
            if *code == 200 || *code == 300 || *code == 301 || *code == 302 || *code == 307
                || *code == 308 {
                Status::Up
            } else {
                Status::Unknown
            }
        },
        ChallengeResult::Unavailable => Status::Unknown,
    }
}

/// The status of one outcome, given what the fallback would answer on
/// escalation.
pub open spec fn spec_classify(o: ProbeOutcome, c: ChallengeResult) -> Status {
    match spec_verdict(o) {
        Verdict::Decided(s) => s,
        Verdict::Escalate => spec_resolve(c),
    }
}

/// Classify one probe outcome; `solve` is consulted only when the
/// outcome escalates.
pub fn classify<F: FnOnce() -> ChallengeResult>(o: &ProbeOutcome, solve: F) -> (s: Status)
    requires
        spec_verdict(*o) is Escalate ==> call_requires(solve, ()),
    ensures
        match spec_verdict(*o) {
            Verdict::Decided(st) => s == st,
            Verdict::Escalate => exists|c: ChallengeResult|
                call_ensures(solve, (), c) && s == spec_resolve(c),
        },
{
    match classify_outcome(o) {
        Verdict::Decided(s) => s,
        Verdict::Escalate => {
            let c = solve();
            resolve_challenge(&c)
        },
    }
}

/// Any success or redirect code yields `Up` on its own, whatever the
/// headers hold and whatever a challenge solver would say.
pub proof fn lemma_reachable_code_up(code: u16, headers: Headers, c: ChallengeResult)
    requires
        code == 200 || code == 300 || code == 301 || code == 302 || code == 307 || code == 308,
    ensures
        spec_classify(ProbeOutcome::Responded { code, headers }, c) == Status::Up,
{
}

/// An origin-failure code behind a `cloudflare` front is reported
/// honestly: the verdict is `Down`, with no escalation.
pub proof fn lemma_real_cf_down_stays_down(code: u16, headers: Headers, c: ChallengeResult)
    requires
        spec_real_cf_down(code),
        spec_header_value(headers@, "server"@) == Some("cloudflare"@),
    ensures
        spec_verdict(ProbeOutcome::Responded { code, headers }) == Verdict::Decided(Status::Down),
        spec_classify(ProbeOutcome::Responded { code, headers }, c) == Status::Down,
{
    reveal_strlit("cloudflare");
    reveal_strlit("ddos-guard");
    assert("cloudflare"@[0] != "ddos-guard"@[0]);
}

/// A `ddos-guard` front escalates for every code outside the success
/// and redirect range, origin-failure codes included.
pub proof fn lemma_ddos_guard_escalates(code: u16, headers: Headers)
    requires
        !spec_code_reachable(code),
        spec_header_value(headers@, "server"@) == Some("ddos-guard"@),
    ensures
        spec_verdict(ProbeOutcome::Responded { code, headers }) == Verdict::Escalate,
{
}

/// Once an outcome escalates, a challenge solved with a success code
/// yields `Up`, and an unavailable solver yields `Unknown` — never
/// `Down`.
pub proof fn lemma_escalation_resolution(o: ProbeOutcome)
    requires
        spec_verdict(o) is Escalate,
    ensures
        spec_classify(o, ChallengeResult::Solved { code: 200 }) == Status::Up,
        spec_classify(o, ChallengeResult::Unavailable) == Status::Unknown,
        forall|c: ChallengeResult| spec_classify(o, c) != Status::Down,
{
}

} // verus!
