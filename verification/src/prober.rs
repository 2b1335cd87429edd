//! One end-to-end check of a single target.
//!
//! A check first consults the cached record: within the rescan interval
//! the record is returned as it stands and no transport call is made.
//! Otherwise the target is probed, the outcome classified — escalating
//! to the challenge solver when called for — and the new record written
//! back with the time of this check.

use vstd::prelude::*;
use crate::classify::{classify, spec_resolve, spec_verdict, Verdict};
use crate::outcome::{ChallengeResult, ProbeOutcome};
use crate::status::{RecordModel, Status, Website};
use crate::store::{
    distinct_urls, has_url, lemma_upsert_then_get, rec_of, spec_seed, spec_upsert, StatusStore,
};

verus! {

/// A record is fresh while less than the rescan interval has passed
/// since it was last checked.  A record from the future counts as
/// fresh.
pub open spec fn spec_fresh(now: u64, time: u64, interval: u64) -> bool {
    now - time < interval
}

pub fn is_fresh(now: u64, time: u64, interval: u64) -> (r: bool)
    ensures
        r == spec_fresh(now, time, interval),
{
    now < time || now - time < interval
}

/// What consulting the cache decided: hand back the record as it
/// stands, or probe the target.
#[derive(Debug)]
pub enum CheckStep {
    Cached(Website),
    Probe,
}

/// The store after a target was made known: unchanged if it already
/// was, else with the seeded record appended.
pub open spec fn spec_after_seen(s: Seq<RecordModel>, u: Seq<char>) -> Seq<RecordModel> {
    if has_url(s, u) {
        s
    } else {
        s.push(spec_seed(u))
    }
}

/// First half of a check: make the target known, then debounce.  The
/// cached record is handed back untouched when it is still fresh;
/// otherwise the caller owes a probe.
pub fn begin_check(store: &mut StatusStore, url: &str, now: u64, interval: u64) -> (step:
    CheckStep)
    requires
        old(store).wf(),
    ensures
        final(store).wf(),
        final(store)@ == spec_after_seen(old(store)@, url@),
        has_url(final(store)@, url@),
        ({
            let rec = rec_of(spec_after_seen(old(store)@, url@), url@);
            match step {
                CheckStep::Cached(w) => spec_fresh(now, rec.time, interval) && w@ == rec,
                CheckStep::Probe => !spec_fresh(now, rec.time, interval),
            }
        }),
{
    store.add_target(url);
    match store.get(url) {
        Some(w) => {
            if is_fresh(now, w.time, interval) {
                CheckStep::Cached(w)
            } else {
                CheckStep::Probe
            }
        },
        None => unreached(),
    }
}

/// Second half of a check, after a probe was classified: build the new
/// record with the time of this check and write it back in full.
pub fn finish_check(store: &mut StatusStore, url: &str, now: u64, status: Status) -> (w: Website)
    requires
        old(store).wf(),
    ensures
        final(store).wf(),
        w@ == (RecordModel { url: url@, time: now, status }),
        final(store)@ == spec_upsert(old(store)@, w@),
        has_url(final(store)@, url@),
        rec_of(final(store)@, url@) == w@,
{
    let w = Website { time: now, url: url.to_owned(), status };
    store.upsert(Website { time: now, url: w.url.clone(), status });
    w
}

/// One synchronous on-demand check.  `transport` is called only when
/// the cached record is stale — a caller whose record is fresh owes no
/// callable transport at all — and `solve` only when the outcome
/// escalates.
pub fn check_now<T: FnOnce() -> ProbeOutcome, S: FnOnce() -> ChallengeResult>(
    store: &mut StatusStore,
    url: &str,
    now: u64,
    interval: u64,
    transport: T,
    solve: S,
) -> (w: Website)
    requires
        old(store).wf(),
        !spec_fresh(
            now,
            rec_of(spec_after_seen(old(store)@, url@), url@).time,
            interval,
        ) ==> call_requires(transport, ()),
        call_requires(solve, ()),
    ensures
        final(store).wf(),
        ({
            let seen = spec_after_seen(old(store)@, url@);
            let rec = rec_of(seen, url@);
            if spec_fresh(now, rec.time, interval) {
                w@ == rec && final(store)@ == seen
            } else {
                w@.url == url@ && w@.time == now && final(store)@ == spec_upsert(seen, w@)
                    && exists|o: ProbeOutcome|
                    #[trigger] call_ensures(transport, (), o) && match spec_verdict(o) {
                        Verdict::Decided(st) => w@.status == st,
                        Verdict::Escalate => exists|c: ChallengeResult|
                            call_ensures(solve, (), c) && w@.status == spec_resolve(c),
                    }
            }
        }),
{
    match begin_check(store, url, now, interval) {
        CheckStep::Cached(w) => w,
        CheckStep::Probe => {
            let o = transport();
            let status = classify(&o, solve);
            finish_check(store, url, now, status)
        },
    }
}

/// The records a sequence of `Website` results stands for.
pub open spec fn spec_records(ws: Seq<Website>) -> Seq<RecordModel> {
    ws.map_values(|w: Website| w@)
}

/// One check's effect on the store: the target is made known, then a
/// stale record is overwritten by `w` while a fresh one stands.
pub open spec fn spec_check_step(
    s: Seq<RecordModel>,
    u: Seq<char>,
    w: RecordModel,
    now: u64,
    interval: u64,
) -> Seq<RecordModel> {
    let seen = spec_after_seen(s, u);
    if spec_fresh(now, rec_of(seen, u).time, interval) {
        seen
    } else {
        spec_upsert(seen, w)
    }
}

/// The store after the first `i` of several checks: a fold of
/// `spec_check_step` over the urls and the records they returned.
pub open spec fn spec_store_after(
    s: Seq<RecordModel>,
    urls: Seq<String>,
    rs: Seq<RecordModel>,
    now: u64,
    interval: u64,
    i: int,
) -> Seq<RecordModel>
    decreases i,
{
    if i <= 0 {
        s
    } else {
        spec_check_step(
            spec_store_after(s, urls, rs, now, interval, i - 1),
            urls[i - 1]@,
            rs[i - 1],
            now,
            interval,
        )
    }
}

/// The first `i` steps of the fold read only the first `i` records.
proof fn lemma_store_after_agrees(
    s: Seq<RecordModel>,
    urls: Seq<String>,
    rs1: Seq<RecordModel>,
    rs2: Seq<RecordModel>,
    now: u64,
    interval: u64,
    i: int,
)
    requires
        i <= rs1.len(),
        i <= rs2.len(),
        forall|j: int| 0 <= j < i ==> rs1[j] == rs2[j],
    ensures
        spec_store_after(s, urls, rs1, now, interval, i) == spec_store_after(
            s,
            urls,
            rs2,
            now,
            interval,
            i,
        ),
    decreases i,
{
    if i > 0 {
        lemma_store_after_agrees(s, urls, rs1, rs2, now, interval, i - 1);
        assert(rs1[i - 1] == rs2[i - 1]);
    }
}

/// What the `i`-th of several checks yields, against the store as the
/// earlier checks left it: the record that store already held for the
/// target, still fresh and handed back unchanged; or a probed record,
/// written at `now`, whose status follows from an outcome of
/// `transport` on that url — escalated through `solve` where the
/// verdict calls for it.
pub open spec fn spec_checked_at<
    T: FnOnce(String) -> ProbeOutcome,
    S: FnOnce() -> ChallengeResult,
>(
    s0: Seq<RecordModel>,
    urls: Seq<String>,
    rs: Seq<RecordModel>,
    now: u64,
    interval: u64,
    i: int,
    transport: T,
    solve: S,
) -> bool {
    let seen = spec_after_seen(spec_store_after(s0, urls, rs, now, interval, i), urls[i]@);
    let rec = rec_of(seen, urls[i]@);
    if spec_fresh(now, rec.time, interval) {
        rs[i] == rec
    } else {
        rs[i].url == urls[i]@ && rs[i].time == now && exists|o: ProbeOutcome|
            #[trigger] call_ensures(transport, (urls[i],), o) && match spec_verdict(o) {
                Verdict::Decided(st) => rs[i].status == st,
                Verdict::Escalate => exists|c: ChallengeResult|
                    call_ensures(solve, (), c) && rs[i].status == spec_resolve(c),
            }
    }
}

/// Applies one check to each of the given targets in turn, against the
/// store as the earlier checks left it; the targets are independent
/// and every one is checked, with no early termination.  `transport`
/// is called at most once per target, with that target's url.
pub fn check_multiple<T: Fn(String) -> ProbeOutcome, S: Fn() -> ChallengeResult>(
    store: &mut StatusStore,
    urls: &Vec<String>,
    now: u64,
    interval: u64,
    transport: T,
    solve: S,
) -> (ws: Vec<Website>)
    requires
        old(store).wf(),
        forall|u: String| call_requires(transport, (u,)),
        call_requires(solve, ()),
    ensures
        final(store).wf(),
        ws@.len() == urls@.len(),
        final(store)@ == spec_store_after(
            old(store)@,
            urls@,
            spec_records(ws@),
            now,
            interval,
            urls@.len() as int,
        ),
        forall|i: int|
            0 <= i < ws@.len() ==> #[trigger] spec_checked_at(
                old(store)@,
                urls@,
                spec_records(ws@),
                now,
                interval,
                i,
                transport,
                solve,
            ),
{
    let ghost s0 = store@;
    let mut ws: Vec<Website> = Vec::new();
    let mut i: usize = 0;
    while i < urls.len()
        invariant
            store.wf(),
            forall|u: String| call_requires(transport, (u,)),
            call_requires(solve, ()),
            i <= urls@.len(),
            ws@.len() == i,
            store@ == spec_store_after(s0, urls@, spec_records(ws@), now, interval, i as int),
            forall|j: int|
                0 <= j < i ==> #[trigger] spec_checked_at(
                    s0,
                    urls@,
                    spec_records(ws@),
                    now,
                    interval,
                    j,
                    transport,
                    solve,
                ),
        decreases urls@.len() - i,
    {
        let ghost rs_prev = spec_records(ws@);
        let ghost s_head = store@;
        let url = &urls[i];
        let w = match begin_check(store, url.as_str(), now, interval) {
            CheckStep::Cached(w) => w,
            CheckStep::Probe => {
                let o = transport(url.clone());
                let status = match crate::classify::classify_outcome(&o) {
                    Verdict::Decided(s) => s,
                    Verdict::Escalate => {
                        let c = solve();
                        crate::classify::resolve_challenge(&c)
                    },
                };
                let w = finish_check(store, url.as_str(), now, status);
                proof {
                    assert(call_ensures(transport, (urls@[i as int],), o));
                }
                w
            },
        };
        ws.push(w);
        i += 1;
        proof {
            let rs_new = spec_records(ws@);
            assert(rs_new =~= rs_prev.push(w@));
            lemma_store_after_agrees(s0, urls@, rs_prev, rs_new, now, interval, i - 1);
            assert(store@ == spec_check_step(s_head, urls@[i - 1]@, w@, now, interval));
            assert(store@ == spec_store_after(s0, urls@, rs_new, now, interval, i as int));
            assert(spec_checked_at(s0, urls@, rs_new, now, interval, i - 1, transport, solve));
            assert forall|j: int| 0 <= j < i implies #[trigger] spec_checked_at(
                s0,
                urls@,
                rs_new,
                now,
                interval,
                j,
                transport,
                solve,
            ) by {
                if j < i - 1 {
                    lemma_store_after_agrees(s0, urls@, rs_prev, rs_new, now, interval, j);
                    assert(spec_checked_at(s0, urls@, rs_prev, now, interval, j, transport, solve));
                }
            };
        }
    }
    ws
}

/// Debounce: a record written by a completed check at `t1` is still the
/// record its target holds, and is fresh for every `t2` less than the
/// rescan interval after `t1` — so a second check before the interval
/// has passed takes the cached step, returns that record unchanged, and
/// makes no transport call.
pub proof fn lemma_debounce(
    s: Seq<RecordModel>,
    u: Seq<char>,
    st: Status,
    t1: u64,
    t2: u64,
    interval: u64,
)
    requires
        distinct_urls(s),
        t2 - t1 < interval,
    ensures
        ({
            let r = RecordModel { url: u, time: t1, status: st };
            let s2 = spec_upsert(s, r);
            &&& has_url(s2, u)
            &&& rec_of(s2, u) == r
            &&& spec_fresh(t2, rec_of(s2, u).time, interval)
            &&& spec_after_seen(s2, u) == s2
        }),
{
    lemma_upsert_then_get(s, RecordModel { url: u, time: t1, status: st });
}

} // verus!
