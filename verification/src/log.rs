//! The sample log and the three lookups that the queries make on it.

use vstd::prelude::*;
use crate::sample::{sample_views, Sample, SampleView};

verus! {

/// The condition of a lookup that found no qualifying sample.
#[derive(Debug, Clone, Copy, PartialEq, Eq)]
pub struct NoData;

/// Sample `i` of the log is at least as recent as sample `j`: it carries the
/// later timestamp, or the same timestamp and was not recorded before `j`.
pub open spec fn no_older(log: Seq<SampleView>, i: int, j: int) -> bool {
    log[j].ts_ms < log[i].ts_ms || (log[j].ts_ms == log[i].ts_ms && j <= i)
}

/// Some sample of the log qualifies under `q`.
pub open spec fn any_qualifies(log: Seq<SampleView>, q: spec_fn(SampleView) -> bool) -> bool {
    exists|j: int| 0 <= j < log.len() && #[trigger] q(log[j])
}

/// Sample `i` qualifies under `q` and no qualifying sample is more recent.
pub open spec fn is_latest(log: Seq<SampleView>, q: spec_fn(SampleView) -> bool, i: int) -> bool {
    &&& 0 <= i < log.len()
    &&& q(log[i])
    &&& forall|j: int| 0 <= j < log.len() && #[trigger] q(log[j]) ==> no_older(log, i, j)
}

/// Sample `i` qualifies under `q` and every qualifying sample is at least as recent.
pub open spec fn is_earliest(log: Seq<SampleView>, q: spec_fn(SampleView) -> bool, i: int) -> bool {
    &&& 0 <= i < log.len()
    &&& q(log[i])
    &&& forall|j: int| 0 <= j < log.len() && #[trigger] q(log[j]) ==> no_older(log, j, i)
}

/// The position of the most recent qualifying sample.
pub open spec fn latest_of(log: Seq<SampleView>, q: spec_fn(SampleView) -> bool) -> int {
    choose|i: int| is_latest(log, q, i)
}

/// The position of the least recent qualifying sample.
pub open spec fn earliest_of(log: Seq<SampleView>, q: spec_fn(SampleView) -> bool) -> int {
    choose|i: int| is_earliest(log, q, i)
}

/// Every sample qualifies.
pub open spec fn any_sample() -> spec_fn(SampleView) -> bool {
    |s: SampleView| true
}

/// The samples whose timestamp lies in the closed interval from `start` to `end`.
pub open spec fn within(start: int, end: int) -> spec_fn(SampleView) -> bool {
    |s: SampleView| start <= s.ts_ms <= end
}

/// The samples of session `key` that were taken strictly before `before`.
pub open spec fn earlier_in_session(key: Seq<char>, before: int) -> spec_fn(SampleView) -> bool {
    |s: SampleView| s.session_key == Some(key) && s.ts_ms < before
}

/// There is at most one most recent qualifying sample.
pub proof fn lemma_latest_unique(log: Seq<SampleView>, q: spec_fn(SampleView) -> bool, i: int)
    requires
        is_latest(log, q, i),
    ensures
        latest_of(log, q) == i,
        any_qualifies(log, q),
{
    let c = latest_of(log, q);
    assert(is_latest(log, q, c));
    assert(no_older(log, i, c) && no_older(log, c, i));
}

/// There is at most one least recent qualifying sample.
pub proof fn lemma_earliest_unique(log: Seq<SampleView>, q: spec_fn(SampleView) -> bool, i: int)
    requires
        is_earliest(log, q, i),
    ensures
        earliest_of(log, q) == i,
        any_qualifies(log, q),
{
    let c = earliest_of(log, q);
    assert(is_earliest(log, q, c));
    assert(no_older(log, i, c) && no_older(log, c, i));
}

/// Among the first `n` samples, of which one qualifies, one is the most recent to qualify.
proof fn lemma_latest_in_prefix(log: Seq<SampleView>, q: spec_fn(SampleView) -> bool, n: int) -> (i: int)
    requires
        0 <= n <= log.len(),
        exists|j: int| 0 <= j < n && #[trigger] q(log[j]),
    ensures
        0 <= i < n,
        q(log[i]),
        forall|j: int| 0 <= j < n && #[trigger] q(log[j]) ==> no_older(log, i, j),
    decreases n,
{
    if exists|j: int| 0 <= j < n - 1 && #[trigger] q(log[j]) {
        let p = lemma_latest_in_prefix(log, q, n - 1);
        if q(log[n - 1]) && log[n - 1].ts_ms >= log[p].ts_ms {
            n - 1
        } else {
            p
        }
    } else {
        n - 1
    }
}

/// Among the first `n` samples, of which one qualifies, one is the least recent to qualify.
proof fn lemma_earliest_in_prefix(log: Seq<SampleView>, q: spec_fn(SampleView) -> bool, n: int) -> (i: int)
    requires
        0 <= n <= log.len(),
        exists|j: int| 0 <= j < n && #[trigger] q(log[j]),
    ensures
        0 <= i < n,
        q(log[i]),
        forall|j: int| 0 <= j < n && #[trigger] q(log[j]) ==> no_older(log, j, i),
    decreases n,
{
    if exists|j: int| 0 <= j < n - 1 && #[trigger] q(log[j]) {
        let p = lemma_earliest_in_prefix(log, q, n - 1);
        if q(log[n - 1]) && log[n - 1].ts_ms < log[p].ts_ms {
            n - 1
        } else {
            p
        }
    } else {
        n - 1
    }
}

/// Where a sample qualifies, the most recent and the least recent qualifying
/// sample exist, and `latest_of` and `earliest_of` are their positions.
pub proof fn lemma_boundaries_exist(log: Seq<SampleView>, q: spec_fn(SampleView) -> bool)
    requires
        any_qualifies(log, q),
    ensures
        is_latest(log, q, latest_of(log, q)),
        is_earliest(log, q, earliest_of(log, q)),
{
    let l = lemma_latest_in_prefix(log, q, log.len() as int);
    assert(is_latest(log, q, l));
    let e = lemma_earliest_in_prefix(log, q, log.len() as int);
    assert(is_earliest(log, q, e));
}

/// Two conditions that agree on every sample of the log select the same boundaries.
pub proof fn lemma_boundaries_agree(
    log: Seq<SampleView>,
    q1: spec_fn(SampleView) -> bool,
    q2: spec_fn(SampleView) -> bool,
)
    requires
        forall|j: int| 0 <= j < log.len() ==> q1(#[trigger] log[j]) == q2(log[j]),
    ensures
        any_qualifies(log, q1) == any_qualifies(log, q2),
        any_qualifies(log, q1) ==> latest_of(log, q1) == latest_of(log, q2) && earliest_of(log, q1)
            == earliest_of(log, q2),
{
    if any_qualifies(log, q1) {
        let w = choose|j: int| 0 <= j < log.len() && #[trigger] q1(log[j]);
        assert(q2(log[w]));
        lemma_boundaries_exist(log, q1);
        let l = latest_of(log, q1);
        let e = earliest_of(log, q1);
        assert(is_latest(log, q2, l)) by {
            assert forall|j: int| 0 <= j < log.len() && #[trigger] q2(log[j]) implies no_older(log, l, j) by {
                assert(q1(log[j]));
            }
        }
        assert(is_earliest(log, q2, e)) by {
            assert forall|j: int| 0 <= j < log.len() && #[trigger] q2(log[j]) implies no_older(log, j, e) by {
                assert(q1(log[j]));
            }
        }
        lemma_latest_unique(log, q2, l);
        lemma_earliest_unique(log, q2, e);
    } else if any_qualifies(log, q2) {
        let w = choose|j: int| 0 <= j < log.len() && #[trigger] q2(log[j]);
        assert(q1(log[w]));
    }
}

/// In a log whose timestamps never go back, the least recent qualifying
/// sample is the first that qualifies and the most recent is the last.
pub proof fn lemma_boundaries_of_ordered_log(log: Seq<SampleView>, q: spec_fn(SampleView) -> bool)
    requires
        forall|i: int, j: int| 0 <= i <= j < log.len() ==> (#[trigger] log[i]).ts_ms <= (#[trigger] log[j]).ts_ms,
        any_qualifies(log, q),
    ensures
        forall|j: int| 0 <= j < log.len() && #[trigger] q(log[j]) ==> earliest_of(log, q) <= j <= latest_of(log, q),
{
    lemma_boundaries_exist(log, q);
    let l = latest_of(log, q);
    let e = earliest_of(log, q);
    assert forall|j: int| 0 <= j < log.len() && #[trigger] q(log[j]) implies e <= j <= l by {
        assert(no_older(log, l, j) && no_older(log, j, e));
        if j > l {
            assert(log[l].ts_ms <= log[j].ts_ms);
        }
        if j < e {
            assert(log[j].ts_ms <= log[e].ts_ms);
        }
    }
}

/// An append-only log of samples, in the order in which they were recorded.
#[derive(Debug, Clone, PartialEq, Eq)]
pub struct SampleLog {
    samples: Vec<Sample>,
}

impl View for SampleLog {
    type V = Seq<SampleView>;

    closed spec fn view(&self) -> Seq<SampleView> {
        sample_views(self.samples@)
    }
}

impl SampleLog {
    /// A log without samples.
    pub fn new() -> (log: SampleLog)
        ensures
            log@ == Seq::<SampleView>::empty(),
    {
        SampleLog { samples: Vec::new() }
    }

    /// The log that holds `samples` in their order.
    pub fn from_samples(samples: Vec<Sample>) -> (log: SampleLog)
        ensures
            log@ == sample_views(samples@),
    {
        SampleLog { samples }
    }

    /// Records `sample` after all the others.
    pub fn push(&mut self, sample: Sample)
        ensures
            final(self)@ == old(self)@.push(sample@),
    {
        self.samples.push(sample);
    }

    /// The number of samples.
    pub fn len(&self) -> (n: usize)
        ensures
            n == self@.len(),
    {
        self.samples.len()
    }

    /// The sample at position `i`.
    pub fn get(&self, i: usize) -> (s: &Sample)
        requires
            i < self@.len(),
        ensures
            s@ == self@[i as int],
    {
        &self.samples[i]
    }

    /// The most recent sample of the whole log.
    pub fn latest(&self) -> (r: Result<&Sample, NoData>)
        ensures
            match r {
                Ok(s) => self@.len() > 0 && s@ == self@[latest_of(self@, any_sample())],
                Err(_) => self@.len() == 0,
            },
    {
        let n: usize = self.samples.len();
        if n == 0 {
            return Err(NoData);
        }
        let mut best: usize = 0;
        let mut i: usize = 1;
        while i < n
            invariant
                n == self.samples.len(),
                n == self@.len(),
                1 <= i <= n,
                best < i,
                forall|j: int| 0 <= j < i ==> no_older(self@, best as int, j),
            decreases n - i,
        {
            let ghost before: int = best as int;
            assert(self@[i as int] == self.samples[i as int]@);
            assert(self@[before] == self.samples[before]@);
            if self.samples[i].ts_ms >= self.samples[best].ts_ms {
                best = i;
            }
            assert forall|j: int| 0 <= j < i + 1 implies no_older(self@, best as int, j) by {
                if j < i {
                    assert(no_older(self@, before, j));
                }
            }
            i += 1;
        }
        proof {
            assert(is_latest(self@, any_sample(), best as int));
            lemma_latest_unique(self@, any_sample(), best as int);
        }
        Ok(&self.samples[best])
    }

    /// The first and the last sample of the closed interval from `start_ms`
    /// to `end_ms`, in the order of their timestamps. An interval that starts
    /// after its end holds no sample.
    pub fn boundary(&self, start_ms: i64, end_ms: i64) -> (r: Result<(&Sample, &Sample), NoData>)
        ensures
            match r {
                Ok((first, last)) => {
                    &&& any_qualifies(self@, within(start_ms as int, end_ms as int))
                    &&& first@ == self@[earliest_of(self@, within(start_ms as int, end_ms as int))]
                    &&& last@ == self@[latest_of(self@, within(start_ms as int, end_ms as int))]
                },
                Err(_) => !any_qualifies(self@, within(start_ms as int, end_ms as int)),
            },
    {
        let ghost q = within(start_ms as int, end_ms as int);
        let n: usize = self.samples.len();
        let mut found: Option<(usize, usize)> = None;
        let mut i: usize = 0;
        while i < n
            invariant
                n == self.samples.len(),
                n == self@.len(),
                0 <= i <= n,
                q == within(start_ms as int, end_ms as int),
                match found {
                    Some((f, l)) => {
                        &&& f < i
                        &&& l < i
                        &&& q(self@[f as int])
                        &&& q(self@[l as int])
                        &&& forall|j: int| 0 <= j < i && #[trigger] q(self@[j]) ==> no_older(self@, j, f as int)
                        &&& forall|j: int| 0 <= j < i && #[trigger] q(self@[j]) ==> no_older(self@, l as int, j)
                    },
                    None => forall|j: int| 0 <= j < i ==> !#[trigger] q(self@[j]),
                },
            decreases n - i,
        {
            let ts: i64 = self.samples[i].ts_ms;
            assert(self@[i as int].ts_ms == ts);
            if start_ms <= ts && ts <= end_ms {
                found = match found {
                    Some((f, l)) => {
                        let f2: usize = if ts < self.samples[f].ts_ms { i } else { f };
                        let l2: usize = if ts >= self.samples[l].ts_ms { i } else { l };
                        Some((f2, l2))
                    },
                    None => Some((i, i)),
                };
            }
            i += 1;
        }
        match found {
            Some((f, l)) => {
                proof {
                    assert(is_earliest(self@, q, f as int));
                    assert(is_latest(self@, q, l as int));
                    lemma_earliest_unique(self@, q, f as int);
                    lemma_latest_unique(self@, q, l as int);
                }
                Ok((&self.samples[f], &self.samples[l]))
            },
            None => Err(NoData),
        }
    }

    /// The most recent sample of session `key` that was taken strictly before `before_ms`.
    pub fn prior_in_session(&self, key: &String, before_ms: i64) -> (r: Result<&Sample, NoData>)
        ensures
            match r {
                Ok(s) => {
                    &&& any_qualifies(self@, earlier_in_session(key@, before_ms as int))
                    &&& s@ == self@[latest_of(self@, earlier_in_session(key@, before_ms as int))]
                },
                Err(_) => !any_qualifies(self@, earlier_in_session(key@, before_ms as int)),
            },
    {
        let ghost q = earlier_in_session(key@, before_ms as int);
        let n: usize = self.samples.len();
        let mut found: Option<usize> = None;
        let mut i: usize = 0;
        while i < n
            invariant
                n == self.samples.len(),
                n == self@.len(),
                0 <= i <= n,
                q == earlier_in_session(key@, before_ms as int),
                match found {
                    Some(b) => {
                        &&& b < i
                        &&& q(self@[b as int])
                        &&& forall|j: int| 0 <= j < i && #[trigger] q(self@[j]) ==> no_older(self@, b as int, j)
                    },
                    None => forall|j: int| 0 <= j < i ==> !#[trigger] q(self@[j]),
                },
            decreases n - i,
        {
            let s: &Sample = &self.samples[i];
            assert(self@[i as int] == s@);
            let same_session: bool = match &s.session_key {
                Some(k) => *k == *key,
                None => false,
            };
            if same_session && s.ts_ms < before_ms {
                found = match found {
                    Some(b) => if s.ts_ms >= self.samples[b].ts_ms { Some(i) } else { Some(b) },
                    None => Some(i),
                };
            }
            i += 1;
        }
        match found {
            Some(b) => {
                proof {
                    assert(is_latest(self@, q, b as int));
                    lemma_latest_unique(self@, q, b as int);
                }
                Ok(&self.samples[b])
            },
            None => Err(NoData),
        }
    }
}

} // verus!
