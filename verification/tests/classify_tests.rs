use pingmon::classify::{classify, classify_outcome, is_real_cf_down, resolve_challenge, Verdict};
use pingmon::outcome::{ChallengeResult, FailureKind, Headers, ProbeOutcome};
use pingmon::status::Status;

fn headers_with_server(value: &str) -> Headers {
    let mut h = Headers::new();
    h.push("server".to_string(), value.to_string());
    h
}

#[test]
fn reachable_codes_are_up_without_headers() {
    for code in [200u16, 300, 301, 302, 307, 308] {
        let o = ProbeOutcome::Responded { code, headers: Headers::new() };
        assert_eq!(classify_outcome(&o), Verdict::Decided(Status::Up));
    }
}

#[test]
fn reachable_codes_are_up_whatever_the_server_header() {
    for code in [200u16, 300, 301, 302, 307, 308] {
        let o = ProbeOutcome::Responded { code, headers: headers_with_server("cloudflare") };
        assert_eq!(classify_outcome(&o), Verdict::Decided(Status::Up));
        let o = ProbeOutcome::Responded { code, headers: headers_with_server("ddos-guard") };
        assert_eq!(classify_outcome(&o), Verdict::Decided(Status::Up));
    }
}

#[test]
fn transport_failures_are_down() {
    for kind in [
        FailureKind::Timeout,
        FailureKind::Connect,
        FailureKind::Tls,
        FailureKind::Decode,
        FailureKind::RedirectLoop,
        FailureKind::Other,
    ] {
        let o = ProbeOutcome::Failed { kind };
        assert_eq!(classify_outcome(&o), Verdict::Decided(Status::Down));
    }
}

#[test]
fn real_cf_down_codes_stay_down_behind_cloudflare() {
    for code in [500u16, 502, 504, 520, 521, 522, 523, 524, 525, 526, 527] {
        assert!(is_real_cf_down(code));
        let o = ProbeOutcome::Responded { code, headers: headers_with_server("cloudflare") };
        assert_eq!(classify_outcome(&o), Verdict::Decided(Status::Down));
    }
}

#[test]
fn other_codes_behind_cloudflare_escalate() {
    for code in [403u16, 503, 429, 530] {
        assert!(!is_real_cf_down(code));
        let o = ProbeOutcome::Responded { code, headers: headers_with_server("cloudflare") };
        assert_eq!(classify_outcome(&o), Verdict::Escalate);
    }
}

#[test]
fn ddos_guard_escalates_regardless_of_code() {
    for code in [403u16, 429, 500, 502, 504, 520, 527, 503] {
        let o = ProbeOutcome::Responded { code, headers: headers_with_server("ddos-guard") };
        assert_eq!(classify_outcome(&o), Verdict::Escalate);
    }
}

#[test]
fn unknown_servers_are_down() {
    let o = ProbeOutcome::Responded { code: 403, headers: headers_with_server("nginx") };
    assert_eq!(classify_outcome(&o), Verdict::Decided(Status::Down));
    let o = ProbeOutcome::Responded { code: 403, headers: Headers::new() };
    assert_eq!(classify_outcome(&o), Verdict::Decided(Status::Down));
}

#[test]
fn solved_success_codes_are_up() {
    for code in [200u16, 300, 301, 302, 307, 308] {
        assert_eq!(resolve_challenge(&ChallengeResult::Solved { code }), Status::Up);
    }
}

#[test]
fn solved_other_codes_are_unknown() {
    for code in [204u16, 403, 500, 503] {
        assert_eq!(resolve_challenge(&ChallengeResult::Solved { code }), Status::Unknown);
    }
}

#[test]
fn unavailable_solver_is_unknown_not_down() {
    assert_eq!(resolve_challenge(&ChallengeResult::Unavailable), Status::Unknown);
}

#[test]
fn escalation_with_solved_200_is_up() {
    let o = ProbeOutcome::Responded { code: 403, headers: headers_with_server("cloudflare") };
    let s = classify(&o, || ChallengeResult::Solved { code: 200 });
    assert_eq!(s, Status::Up);
}

#[test]
fn escalation_with_unavailable_solver_is_unknown() {
    let o = ProbeOutcome::Responded { code: 403, headers: headers_with_server("cloudflare") };
    let s = classify(&o, || ChallengeResult::Unavailable);
    assert_eq!(s, Status::Unknown);
}

#[test]
fn decided_outcomes_never_consult_the_solver() {
    let o = ProbeOutcome::Responded { code: 200, headers: Headers::new() };
    let s = classify(&o, || panic!("solver must not be called"));
    assert_eq!(s, Status::Up);
    let o = ProbeOutcome::Failed { kind: FailureKind::Timeout };
    let s = classify(&o, || panic!("solver must not be called"));
    assert_eq!(s, Status::Down);
}

#[test]
fn first_header_of_a_name_wins() {
    let mut h = Headers::new();
    h.push("server".to_string(), "cloudflare".to_string());
    h.push("server".to_string(), "nginx".to_string());
    assert_eq!(h.get("server").map(|v| v.as_str()), Some("cloudflare"));
    assert_eq!(h.get("content-type"), None);
}

#[test]
fn challenge_from_response_folds_missing_configuration() {
    assert_eq!(
        ChallengeResult::from_response(false, Some(200)),
        ChallengeResult::Unavailable
    );
    assert_eq!(ChallengeResult::from_response(true, None), ChallengeResult::Unavailable);
    assert_eq!(
        ChallengeResult::from_response(true, Some(200)),
        ChallengeResult::Solved { code: 200 }
    );
}
