//! What each tick of the background loop decides: which targets are
//! owed a re-check, and in what batches to dispatch them so that no
//! more than the configured number of probes is in flight at once.
//! The loop itself — sleeping a tick, firing the probes — is plain
//! plumbing and lives with the caller.

use vstd::prelude::*;
use vstd::arithmetic::div_mod::lemma_fundamental_div_mod_converse_div;
use crate::status::RecordModel;
use crate::store::StatusStore;

verus! {

/// A record is overdue once more than the rescan interval has passed
/// since it was last checked.
pub open spec fn spec_overdue(now: u64, time: u64, interval: u64) -> bool {
    now - time > interval
}

pub fn is_overdue(now: u64, time: u64, interval: u64) -> (r: bool)
    ensures
        r == spec_overdue(now, time, interval),
{
    now > time && now - time > interval
}

/// The records owed a re-check, in store order.
pub open spec fn spec_overdue_records(s: Seq<RecordModel>, now: u64, interval: u64) -> Seq<
    RecordModel,
> {
    s.filter(|rm: RecordModel| spec_overdue(now, rm.time, interval))
}

/// The targets owed a re-check, in store order.
pub fn overdue_targets(store: &StatusStore, now: u64, interval: u64) -> (r: Vec<String>)
    ensures
        ({
            let over = spec_overdue_records(store@, now, interval);
            &&& r@.len() == over.len()
            &&& forall|j: int| 0 <= j < over.len() ==> r@[j]@ == over[j].url
        }),
{
    let n = store.records.len();
    let mut r: Vec<String> = Vec::new();
    let mut i: usize = 0;
    while i < n
        invariant
            n == store.records.len(),
            i <= n,
            r@.len() == spec_overdue_records(store@.take(i as int), now, interval).len(),
            forall|j: int|
                0 <= j < r@.len() ==> r@[j]@ == spec_overdue_records(
                    store@.take(i as int),
                    now,
                    interval,
                )[j].url,
        decreases n - i,
    {
        let w = &store.records[i];
        proof {
            reveal(Seq::filter);
            assert(store@.take(i + 1).drop_last() =~= store@.take(i as int));
            assert(store@.take(i + 1).last() == store@[i as int]);
        }
        if is_overdue(now, w.time, interval) {
            r.push(w.url.clone());
        }
        i += 1;
    }
    proof {
        assert(store@.take(n as int) =~= store@);
    }
    r
}

/// How many batches a list of the given length cuts into.
pub open spec fn spec_batch_count(n: int, limit: int) -> int {
    (n + limit - 1) / limit
}

/// Cuts the list of targets into dispatch batches: each batch takes
/// the next `limit` targets, the last one whatever remains.  Working
/// the batches off one at a time checks every target while never
/// holding more than `limit` probes in flight.
pub fn plan_batches(targets: &Vec<String>, limit: usize) -> (r: Vec<Vec<String>>)
    requires
        1 <= limit,
    ensures
        r@.len() == spec_batch_count(targets@.len() as int, limit as int),
        forall|b: int|
            0 <= b < r@.len() ==> (#[trigger] r@[b])@ == targets@.subrange(
                b * (limit as int),
                if (b + 1) * (limit as int) <= targets@.len() {
                    (b + 1) * (limit as int)
                } else {
                    targets@.len() as int
                },
            ),
{
    let n = targets.len();
    proof {
        if n == 0 {
            lemma_fundamental_div_mod_converse_div(
                n as int + limit as int - 1,
                limit as int,
                0,
                limit as int - 1,
            );
        }
    }
    let mut r: Vec<Vec<String>> = Vec::new();
    let mut i: usize = 0;
    proof {
        assert(r@.len() * (limit as int) == 0) by (nonlinear_arith)
            requires
                r@.len() == 0,
        ;
    }
    while i < n
        invariant
            1 <= limit,
            n == targets@.len(),
            i <= n,
            i < n ==> i == r@.len() * (limit as int),
            i == n ==> r@.len() == spec_batch_count(n as int, limit as int),
            forall|b: int|
                0 <= b < r@.len() ==> (#[trigger] r@[b])@ == targets@.subrange(
                    b * (limit as int),
                    if (b + 1) * (limit as int) <= n {
                        (b + 1) * (limit as int)
                    } else {
                        n as int
                    },
                ),
        decreases n - i,
    {
        let ghost blen = r@.len() as int;
        let end = if n - i > limit {
            i + limit
        } else {
            n
        };
        let mut batch: Vec<String> = Vec::new();
        let mut j: usize = i;
        while j < end
            invariant
                i <= j <= end <= n,
                n == targets@.len(),
                batch@.len() == j - i,
                forall|k: int| 0 <= k < batch@.len() ==> batch@[k] == targets@[i + k],
            decreases end - j,
        {
            batch.push(targets[j].clone());
            j += 1;
        }
        proof {
            assert(batch@ =~= targets@.subrange(i as int, end as int));
            assert((blen + 1) * (limit as int) == blen * (limit as int) + (limit as int))
                by (nonlinear_arith);
            if end == n {
                lemma_fundamental_div_mod_converse_div(
                    n as int + limit as int - 1,
                    limit as int,
                    blen + 1,
                    n - 1 - blen * (limit as int),
                );
            }
        }
        r.push(batch);
        i = end;
    }
    r
}

} // verus!
