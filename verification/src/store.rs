//! The store of status records: one record per known target.
//!
//! A target is known exactly while a record for it is held; a newly
//! added target is seeded with `{status: Unknown, time: 0}` before any
//! probe runs, so a lookup of a known target never comes back empty.

use vstd::prelude::*;
use crate::status::{RecordModel, Status, Website};
use crate::strutil::str_eq;

verus! {

/// Whether some record in `s` is for the target `u`.
pub open spec fn has_url(s: Seq<RecordModel>, u: Seq<char>) -> bool {
    exists|i: int| 0 <= i < s.len() && s[i].url == u
}

/// The index of the record for `u`; meaningful when `has_url` holds and
/// the urls of `s` are distinct.
pub open spec fn idx_of(s: Seq<RecordModel>, u: Seq<char>) -> int {
    choose|i: int| 0 <= i < s.len() && s[i].url == u
}

/// The record for `u`.
pub open spec fn rec_of(s: Seq<RecordModel>, u: Seq<char>) -> RecordModel {
    s[idx_of(s, u)]
}

/// No two records are for the same target.
pub open spec fn distinct_urls(s: Seq<RecordModel>) -> bool {
    forall|i: int, j: int| 0 <= i < j < s.len() ==> s[i].url != s[j].url
}

/// The record a target is seeded with when first added, before any
/// probe has run.
pub open spec fn spec_seed(u: Seq<char>) -> RecordModel {
    RecordModel { url: u, time: 0, status: Status::Unknown }
}

/// Full overwrite of the record for `r.url`: it replaces the record
/// already held for that target, or is appended for a new target.
pub open spec fn spec_upsert(s: Seq<RecordModel>, r: RecordModel) -> Seq<RecordModel> {
    if has_url(s, r.url) {
        s.update(idx_of(s, r.url), r)
    } else {
        s.push(r)
    }
}

/// With distinct urls, the record at index `i` is the one `rec_of`
/// finds for its url.
proof fn lemma_rec_at_index(s: Seq<RecordModel>, i: int)
    requires
        distinct_urls(s),
        0 <= i < s.len(),
    ensures
        has_url(s, s[i].url),
        idx_of(s, s[i].url) == i,
        rec_of(s, s[i].url) == s[i],
{
    assert(has_url(s, s[i].url));
    let k = idx_of(s, s[i].url);
    if k != i {
        if k < i {
            assert(s[k].url != s[i].url);
        } else {
            assert(s[i].url != s[k].url);
        }
    }
}

/// Upserting a record and then looking its target up yields exactly
/// that record, and no other target's record changes.
pub proof fn lemma_upsert_then_get(s: Seq<RecordModel>, r: RecordModel)
    requires
        distinct_urls(s),
    ensures
        distinct_urls(spec_upsert(s, r)),
        has_url(spec_upsert(s, r), r.url),
        rec_of(spec_upsert(s, r), r.url) == r,
        forall|u: Seq<char>| u != r.url ==> has_url(spec_upsert(s, r), u) == has_url(s, u),
        forall|u: Seq<char>|
            u != r.url && has_url(s, u) ==> rec_of(spec_upsert(s, r), u) == rec_of(s, u),
{
    let s2 = spec_upsert(s, r);
    if has_url(s, r.url) {
        let i = idx_of(s, r.url);
        assert(0 <= i < s.len() && s[i].url == r.url);
        assert(forall|j: int| 0 <= j < s2.len() ==> s2[j].url == s[j].url);
        assert(distinct_urls(s2));
        lemma_rec_at_index(s2, i);
        assert forall|u: Seq<char>| u != r.url implies has_url(s2, u) == has_url(s, u) by {
            if has_url(s2, u) {
                let k = choose|k: int| 0 <= k < s2.len() && s2[k].url == u;
                assert(s[k].url == u);
            }
            if has_url(s, u) {
                let k = choose|k: int| 0 <= k < s.len() && s[k].url == u;
                assert(s2[k].url == u);
            }
        }
        assert forall|u: Seq<char>| u != r.url && has_url(s, u) implies rec_of(s2, u) == rec_of(
            s,
            u,
        ) by {
            let k = idx_of(s, u);
            assert(0 <= k < s.len() && s[k].url == u);
            assert(k != i);
            assert(s2[k] == s[k]);
            lemma_rec_at_index(s2, k);
            lemma_rec_at_index(s, k);
        }
    } else {
        let n = s.len() as int;
        assert(forall|j: int| 0 <= j < n ==> s2[j] == s[j]);
        assert(s2[n].url == r.url);
        assert forall|a: int, b: int| 0 <= a < b < s2.len() implies s2[a].url != s2[b].url by {
            if b == n {
                assert(s[a].url != r.url) by {
                    if s[a].url == r.url {
                        assert(has_url(s, r.url));
                    }
                }
            }
        }
        lemma_rec_at_index(s2, n);
        assert forall|u: Seq<char>| u != r.url implies has_url(s2, u) == has_url(s, u) by {
            if has_url(s2, u) {
                let k = choose|k: int| 0 <= k < s2.len() && s2[k].url == u;
                assert(k != n);
                assert(s[k].url == u);
            }
            if has_url(s, u) {
                let k = choose|k: int| 0 <= k < s.len() && s[k].url == u;
                assert(s2[k].url == u);
            }
        }
        assert forall|u: Seq<char>| u != r.url && has_url(s, u) implies rec_of(s2, u) == rec_of(
            s,
            u,
        ) by {
            let k = idx_of(s, u);
            assert(0 <= k < s.len() && s[k].url == u);
            assert(s2[k] == s[k]);
            lemma_rec_at_index(s2, k);
            lemma_rec_at_index(s, k);
        }
    }
}

/// Removing the record at index `i` forgets that target and no other.
proof fn lemma_remove_effect(s: Seq<RecordModel>, i: int)
    requires
        distinct_urls(s),
        0 <= i < s.len(),
    ensures
        distinct_urls(s.remove(i)),
        !has_url(s.remove(i), s[i].url),
        forall|u: Seq<char>| u != s[i].url ==> has_url(s.remove(i), u) == has_url(s, u),
        forall|u: Seq<char>|
            u != s[i].url && has_url(s, u) ==> rec_of(s.remove(i), u) == rec_of(s, u),
{
    let s2 = s.remove(i);
    assert(forall|j: int| 0 <= j < i ==> s2[j] == s[j]);
    assert(forall|j: int| i <= j < s2.len() ==> s2[j] == s[j + 1]);
    assert forall|a: int, b: int| 0 <= a < b < s2.len() implies s2[a].url != s2[b].url by {
        let a0 = if a < i { a } else { a + 1 };
        let b0 = if b < i { b } else { b + 1 };
        assert(s[a0].url != s[b0].url);
    }
    assert forall|u: Seq<char>| has_url(s2, u) implies has_url(s, u) && u != s[i].url by {
        let k = choose|k: int| 0 <= k < s2.len() && s2[k].url == u;
        let k0 = if k < i { k } else { k + 1 };
        assert(s[k0].url == u);
        if k0 < i {
            assert(s[k0].url != s[i].url);
        } else {
            assert(s[i].url != s[k0].url);
        }
    }
    assert forall|u: Seq<char>| u != s[i].url && has_url(s, u) implies has_url(s2, u) by {
        let k = choose|k: int| 0 <= k < s.len() && s[k].url == u;
        assert(k != i);
        if k < i {
            assert(s2[k].url == u);
        } else {
            assert(s2[k - 1].url == u);
        }
    }
    assert forall|u: Seq<char>| u != s[i].url && has_url(s, u) implies rec_of(s2, u) == rec_of(
        s,
        u,
    ) by {
        let k = idx_of(s, u);
        assert(0 <= k < s.len() && s[k].url == u);
        assert(k != i);
        let k2 = if k < i { k } else { k - 1 };
        assert(s2[k2] == s[k]);
        lemma_rec_at_index(s2, k2);
        lemma_rec_at_index(s, k);
    }
}

/// The in-memory store: the set of known targets and the one record
/// each holds.
#[derive(Debug)]
pub struct StatusStore {
    pub records: Vec<Website>,
}

impl View for StatusStore {
    type V = Seq<RecordModel>;

    open spec fn view(&self) -> Seq<RecordModel> {
        self.records@.map_values(|w: Website| w@)
    }
}

impl StatusStore {
    /// No two records share a target.
    pub open spec fn wf(self) -> bool {
        distinct_urls(self@)
    }

    pub fn new() -> (s: StatusStore)
        ensures
            s.wf(),
            s@ =~= Seq::<RecordModel>::empty(),
    {
        StatusStore { records: Vec::new() }
    }

    /// The index of the record for `url`, if the target is known.
    fn find(&self, url: &str) -> (r: Option<usize>)
        requires
            self.wf(),
        ensures
            match r {
                Some(i) => i < self@.len() && self@[i as int].url == url@ && has_url(self@, url@)
                    && idx_of(self@, url@) == i as int,
                None => !has_url(self@, url@),
            },
    {
        let n = self.records.len();
        let mut i: usize = 0;
        while i < n
            invariant
                self.wf(),
                n == self.records.len(),
                i <= n,
                forall|j: int| 0 <= j < i ==> self@[j].url != url@,
            decreases n - i,
        {
            if str_eq(self.records[i].url.as_str(), url) {
                proof {
                    lemma_rec_at_index(self@, i as int);
                }
                return Some(i);
            }
            i += 1;
        }
        None
    }

    /// Whether the target is known.
    pub fn contains_target(&self, url: &str) -> (r: bool)
        requires
            self.wf(),
        ensures
            r == has_url(self@, url@),
    {
        self.find(url).is_some()
    }

    /// The record of a known target; nothing for an unknown one.
    pub fn get(&self, url: &str) -> (r: Option<Website>)
        requires
            self.wf(),
        ensures
            match r {
                Some(w) => has_url(self@, url@) && w@ == rec_of(self@, url@),
                None => !has_url(self@, url@),
            },
    {
        match self.find(url) {
            Some(i) => {
                let w = &self.records[i];
                Some(Website { time: w.time, url: w.url.clone(), status: w.status })
            },
            None => None,
        }
    }

    /// Full overwrite of the record for `w.url`: all three fields are
    /// replaced at once; an unknown target becomes known.
    pub fn upsert(&mut self, w: Website)
        requires
            old(self).wf(),
        ensures
            final(self).wf(),
            final(self)@ == spec_upsert(old(self)@, w@),
            has_url(final(self)@, w@.url),
            rec_of(final(self)@, w@.url) == w@,
    {
        let ghost prev = self@;
        let ghost rm = w@;
        proof {
            lemma_upsert_then_get(prev, rm);
        }
        match self.find(w.url.as_str()) {
            Some(i) => {
                self.records[i] = w;
                proof {
                    assert(self@ =~= spec_upsert(prev, rm));
                }
            },
            None => {
                self.records.push(w);
                proof {
                    assert(self@ =~= spec_upsert(prev, rm));
                }
            },
        }
    }

    /// Adds a target, seeding its record with `{status: Unknown,
    /// time: 0}`; adding a known target changes nothing.
    pub fn add_target(&mut self, url: &str)
        requires
            old(self).wf(),
        ensures
            final(self).wf(),
            final(self)@ == if has_url(old(self)@, url@) {
                old(self)@
            } else {
                old(self)@.push(spec_seed(url@))
            },
            has_url(final(self)@, url@),
            has_url(old(self)@, url@) ==> rec_of(final(self)@, url@) == rec_of(old(self)@, url@),
            !has_url(old(self)@, url@) ==> rec_of(final(self)@, url@) == spec_seed(url@),
    {
        let ghost prev = self@;
        if self.find(url).is_none() {
            proof {
                lemma_upsert_then_get(prev, spec_seed(url@));
            }
            self.records.push(Website { time: 0, url: url.to_owned(), status: Status::Unknown });
            proof {
                assert(self@ =~= prev.push(spec_seed(url@)));
                assert(self@ =~= spec_upsert(prev, spec_seed(url@)));
            }
        }
    }

    /// Forgets a target and its record; removing an unknown target
    /// changes nothing.
    pub fn remove_target(&mut self, url: &str)
        requires
            old(self).wf(),
        ensures
            final(self).wf(),
            !has_url(final(self)@, url@),
            forall|u: Seq<char>|
                u != url@ ==> has_url(final(self)@, u) == has_url(old(self)@, u),
            forall|u: Seq<char>|
                u != url@ && has_url(old(self)@, u) ==> rec_of(final(self)@, u) == rec_of(
                    old(self)@,
                    u,
                ),
    {
        let ghost prev = self@;
        match self.find(url) {
            Some(i) => {
                proof {
                    lemma_remove_effect(prev, i as int);
                }
                self.records.remove(i);
                proof {
                    assert(self@ =~= prev.remove(i as int));
                }
            },
            None => {},
        }
    }

    /// All known targets, in store order.
    pub fn list_targets(&self) -> (r: Vec<String>)
        ensures
            r@.len() == self@.len(),
            forall|i: int| 0 <= i < self@.len() ==> r@[i]@ == self@[i].url,
    {
        let n = self.records.len();
        let mut r: Vec<String> = Vec::new();
        let mut i: usize = 0;
        while i < n
            invariant
                n == self.records.len(),
                i <= n,
                r@.len() == i,
                forall|j: int| 0 <= j < i ==> r@[j]@ == self@[j].url,
            decreases n - i,
        {
            r.push(self.records[i].url.clone());
            i += 1;
        }
        r
    }
}

} // verus!
