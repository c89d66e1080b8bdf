//! Least-recently-used eviction: which entries to delete, oldest first, so
//! that an incoming file fits under the cache's size limit.
use vstd::prelude::*;

use crate::error::InferaError;
use crate::index::{entry_le, in_eviction_order, sum_sizes, total_size, views, CacheEntry, EntryView};

verus! {

/// The total size of the first `k` entries.
pub open spec fn prefix_sum(s: Seq<EntryView>, k: int) -> int {
    sum_sizes(s.subrange(0, k))
}

/// The size the cache should shrink to so that `incoming` more bytes fit
/// under `limit`; zero where `incoming` alone exceeds it.
pub open spec fn target_size(limit: int, incoming: int) -> int {
    if incoming <= limit {
        limit - incoming
    } else {
        0
    }
}

/// Counting from `k`, the least number of oldest entries whose removal
/// brings a cache of `current` bytes down to `target`, or all of them.
pub open spec fn evict_count_from(s: Seq<EntryView>, k: int, current: int, target: int) -> int
    decreases s.len() - k,
{
    if k >= s.len() || current - prefix_sum(s, k) <= target {
        k
    } else {
        evict_count_from(s, k + 1, current, target)
    }
}

/// How many of the oldest entries eviction removes when every deletion succeeds.
pub open spec fn evict_count(s: Seq<EntryView>, limit: int, incoming: int) -> int {
    evict_count_from(s, 0, sum_sizes(s), target_size(limit, incoming))
}

/// The state of one eviction pass.
pub struct Evictor {
    entries: Vec<CacheEntry>,
    next: usize,
    current: u128,
    freed: u128,
    target: u128,
    last_error: Option<InferaError>,
}

/// What an eviction pass stands for: the entries oldest first, how many of
/// them have been tried, the cache's size at the start, the bytes freed so
/// far, the size to reach, whether a deletion failed, and the error of the
/// last one that did.
pub struct EvictorView {
    pub entries: Seq<EntryView>,
    pub next: int,
    pub current: int,
    pub freed: int,
    pub target: int,
    pub failed: bool,
    pub last_error: Option<InferaError>,
}

impl View for Evictor {
    type V = EvictorView;

    closed spec fn view(&self) -> EvictorView {
        EvictorView {
            entries: views(self.entries@),
            next: self.next as int,
            current: self.current as int,
            freed: self.freed as int,
            target: self.target as int,
            failed: self.last_error is Some,
            last_error: self.last_error,
        }
    }
}

proof fn lemma_prefix_step(s: Seq<EntryView>, k: int)
    requires
        0 <= k < s.len(),
    ensures
        prefix_sum(s, k + 1) == prefix_sum(s, k) + s[k].size,
{
    assert(s.subrange(0, k + 1).drop_last() =~= s.subrange(0, k));
}

proof fn lemma_prefix_all(s: Seq<EntryView>)
    ensures
        prefix_sum(s, s.len() as int) == sum_sizes(s),
{
    assert(s.subrange(0, s.len() as int) =~= s);
}

proof fn lemma_count_is(s: Seq<EntryView>, k: int, n: int, current: int, target: int)
    requires
        0 <= k <= n <= s.len(),
        forall|j: int| k <= j < n ==> current - #[trigger] prefix_sum(s, j) > target,
        n == s.len() || current - prefix_sum(s, n) <= target,
    ensures
        evict_count_from(s, k, current, target) == n,
    decreases n - k,
{
    if k < n {
        lemma_count_is(s, k + 1, n, current, target);
    }
}

impl Evictor {
    /// The pass's invariant.
    pub closed spec fn wf(&self) -> bool {
        let v = self@;
        &&& 0 <= v.next <= v.entries.len()
        &&& v.current == sum_sizes(v.entries)
        &&& v.freed <= v.current
        &&& 0 <= v.freed <= prefix_sum(v.entries, v.next)
        &&& !v.failed ==> v.freed == prefix_sum(v.entries, v.next)
        &&& !v.failed ==> forall|j: int|
            0 <= j < v.next ==> v.current - #[trigger] prefix_sum(v.entries, j) > v.target
        &&& forall|j: int| 0 <= j <= v.entries.len() ==> #[trigger] prefix_sum(v.entries, j) <= v.current
        &&& forall|j: int| 0 <= j < v.entries.len() ==> (#[trigger] v.entries[j]).size >= 0
    }

    /// Whether the pass still has to free space and has an entry left to try.
    pub open spec fn wants_more(&self) -> bool {
        self@.next < self@.entries.len() && self@.current - self@.freed > self@.target
    }

    /// Starts a pass over `entries`, oldest first, that frees room for
    /// `incoming` bytes under `limit`.
    pub fn new(entries: Vec<CacheEntry>, limit: u64, incoming: u64) -> (r: Evictor)
        ensures
            r.wf(),
            r@.entries == views(entries@),
            r@.next == 0,
            r@.current == sum_sizes(views(entries@)),
            r@.freed == 0,
            r@.target == target_size(limit as int, incoming as int),
            !r@.failed,
    {
        let current = total_size(&entries);
        let target: u128 = if incoming <= limit {
            (limit - incoming) as u128
        } else {
            0
        };
        let r = Evictor { entries, next: 0, current, freed: 0, target, last_error: None };
        proof {
            let s = r@.entries;
            assert(s.subrange(0, 0) =~= Seq::<EntryView>::empty());
            assert forall|j: int| 0 <= j <= s.len() implies #[trigger] prefix_sum(s, j) <= r@.current by {
                lemma_prefix_bounded(s, j);
            }
        }
        r
    }

    /// The path of the entry to delete next, if space is still wanted and an
    /// entry is left; `None` when the pass is over.
    pub fn next_victim(&self) -> (r: Option<String>)
        requires
            self.wf(),
        ensures
            r is Some <==> self.wants_more(),
            r matches Some(p) ==> p@ == self@.entries[self@.next].path,
    {
        if self.next < self.entries.len() && self.current - self.freed > self.target {
            Some(self.entries[self.next].path.clone())
        } else {
            None
        }
    }

    /// Records the outcome of deleting the entry that `next_victim` named: on
    /// success its size counts as freed; on failure the error is kept and the
    /// pass moves on to the next entry.
    pub fn record(&mut self, outcome: Result<(), InferaError>)
        requires
            old(self).wf(),
            old(self).wants_more(),
        ensures
            final(self).wf(),
            final(self)@.entries == old(self)@.entries,
            final(self)@.current == old(self)@.current,
            final(self)@.target == old(self)@.target,
            final(self)@.next == old(self)@.next + 1,
            outcome is Ok ==> final(self)@.freed == old(self)@.freed + old(self)@.entries[old(
                self,
            )@.next].size && final(self)@.failed == old(self)@.failed,
            outcome is Ok ==> final(self)@.last_error == old(self)@.last_error,
            outcome matches Err(e) ==> final(self)@.freed == old(self)@.freed && final(self)@.failed
                && final(self)@.last_error == Some(e),
    {
        let ghost s = self@.entries;
        let ghost k = self@.next;
        proof {
            lemma_prefix_step(s, k);
            if !self@.failed {
                assert(self@.freed + s[k].size == prefix_sum(s, k + 1));
            }
            assert(s[k].size >= 0);
        }
        assert(self.next < self.entries.len());
        match outcome {
            Ok(()) => {
                proof {
                    lemma_freed_bounded(self);
                }
                self.freed = self.freed + self.entries[self.next].size as u128;
            },
            Err(e) => {
                self.last_error = Some(e);
            },
        }
        self.next = self.next + 1;
    }

    /// Ends the pass: `Ok` when the cache now fits the target, else the last
    /// deletion error, which is then why it does not.
    pub fn finish(self) -> (r: Result<(), InferaError>)
        requires
            self.wf(),
            !self.wants_more(),
        ensures
            r is Ok <==> self@.current - self@.freed <= self@.target,
            r matches Err(e) ==> self@.last_error == Some(e),
            !self@.failed ==> r is Ok && self@.next == evict_count_from(
                self@.entries,
                0,
                self@.current,
                self@.target,
            ),
    {
        proof {
            if !self@.failed {
                if self@.next == self@.entries.len() {
                    lemma_prefix_all(self@.entries);
                }
                lemma_count_is(self@.entries, 0, self@.next, self@.current, self@.target);
            }
        }
        if self.current - self.freed <= self.target {
            Ok(())
        } else {
            match self.last_error {
                Some(e) => Err(e),
                None => {
                    proof {
                        lemma_prefix_all(self@.entries);
                    }
                    Ok(())
                },
            }
        }
    }
}

proof fn lemma_prefix_bounded(s: Seq<EntryView>, j: int)
    requires
        0 <= j <= s.len(),
        forall|i: int| 0 <= i < s.len() ==> (#[trigger] s[i]).size >= 0,
    ensures
        prefix_sum(s, j) <= sum_sizes(s),
    decreases s.len() - j,
{
    if j < s.len() {
        lemma_prefix_step(s, j);
        lemma_prefix_bounded(s, j + 1);
    } else {
        lemma_prefix_all(s);
    }
}

proof fn lemma_freed_bounded(e: &Evictor)
    requires
        e.wf(),
        e.wants_more(),
    ensures
        e@.freed + e@.entries[e@.next].size <= e@.current,
{
    let s = e@.entries;
    let k = e@.next;
    lemma_prefix_step(s, k);
    assert(prefix_sum(s, k + 1) <= e@.current);
}

proof fn lemma_count_from(s: Seq<EntryView>, k: int, current: int, target: int)
    requires
        0 <= k <= s.len(),
    ensures
        k <= evict_count_from(s, k, current, target) <= s.len(),
        evict_count_from(s, k, current, target) == s.len() || current - prefix_sum(
            s,
            evict_count_from(s, k, current, target),
        ) <= target,
        forall|j: int|
            k <= j < evict_count_from(s, k, current, target) ==> current - #[trigger] prefix_sum(s, j)
                > target,
    decreases s.len() - k,
{
    if k < s.len() && current - prefix_sum(s, k) > target {
        lemma_count_from(s, k + 1, current, target);
    }
}

/// Making room in a full cache: where the entries, oldest first, add up to
/// exactly the limit and a file of at most the limit comes in, the eviction
/// pass (every deletion succeeding) removes the `k` oldest entries for the
/// least `k` that makes room: after it the rest and the new file fit under
/// the limit, and with one entry fewer removed they would not. The entries
/// removed are older than every entry kept.
pub proof fn lemma_evicts_just_enough(entries: Seq<EntryView>, limit: int, incoming: int)
    requires
        forall|i: int| 0 <= i < entries.len() ==> (#[trigger] entries[i]).size >= 0,
        in_eviction_order(entries),
        sum_sizes(entries) == limit,
        0 <= incoming <= limit,
    ensures
        ({
            let k = evict_count(entries, limit, incoming);
            &&& 0 <= k <= entries.len()
            &&& sum_sizes(entries) - prefix_sum(entries, k) + incoming <= limit
            &&& k > 0 ==> sum_sizes(entries) - prefix_sum(entries, k - 1) + incoming > limit
            &&& forall|i: int, j: int|
                0 <= i < k <= j < entries.len() ==> entry_le(#[trigger] entries[i], #[trigger] entries[j])
        }),
{
    let t = target_size(limit, incoming);
    let k = evict_count(entries, limit, incoming);
    lemma_count_from(entries, 0, limit, t);
    if k == entries.len() {
        lemma_prefix_all(entries);
    }
}

} // verus!
