//! The cache index: the committed artifacts of the cache directory, oldest
//! access first.
use vstd::prelude::*;

use vstd::seq_lib::to_multiset_insert;
use vstd::utf8::encode_utf8;

use crate::key::artifact_suffix;
use crate::text::{join, join_path};

verus! {

/// One item of a listing of the cache directory, as the file system gave it.
#[derive(Debug, Clone)]
pub struct ScannedFile {
    /// The item's file name.
    pub name: String,
    /// Whether it is a regular file.
    pub is_file: bool,
    /// Its last access time in nanoseconds since the epoch, where the
    /// platform reports one.
    pub accessed_nanos: Option<u128>,
    /// Its size in bytes.
    pub size: u64,
}

/// One committed artifact of the cache.
#[derive(Debug, Clone)]
pub struct CacheEntry {
    /// The artifact's path.
    pub path: String,
    /// Its last access time in nanoseconds since the epoch.
    pub accessed_nanos: u128,
    /// Its size in bytes.
    pub size: u64,
}

/// What a cache entry stands for.
pub struct EntryView {
    pub path: Seq<char>,
    pub accessed: int,
    pub size: int,
}

impl View for CacheEntry {
    type V = EntryView;

    open spec fn view(&self) -> EntryView {
        EntryView { path: self.path@, accessed: self.accessed_nanos as int, size: self.size as int }
    }
}

pub open spec fn views(s: Seq<CacheEntry>) -> Seq<EntryView> {
    s.map_values(|e: CacheEntry| e@)
}

/// Whether a file name follows the artifact naming convention: a non-empty
/// stem followed by `.artifact`.
pub open spec fn is_artifact_name(name: Seq<char>) -> bool {
    let n = artifact_suffix().len();
    name.len() > n && name.subrange(name.len() - n, name.len() as int) == artifact_suffix()
}

/// The entry that a scanned file stands for; without an access time it
/// counts as accessed `now`.
pub open spec fn entry_of(dir: Seq<char>, f: ScannedFile, now: int) -> EntryView {
    EntryView {
        path: join_path(dir, f.name@),
        accessed: match f.accessed_nanos {
            Some(t) => t as int,
            None => now,
        },
        size: f.size as int,
    }
}

/// The entries of a listing: its regular files that follow the naming convention.
pub open spec fn admitted(dir: Seq<char>, s: Seq<ScannedFile>, now: int) -> Seq<EntryView>
    decreases s.len(),
{
    if s.len() == 0 {
        seq![]
    } else {
        let rest = admitted(dir, s.drop_last(), now);
        let f = s.last();
        if f.is_file && is_artifact_name(f.name@) {
            rest.push(entry_of(dir, f, now))
        } else {
            rest
        }
    }
}

/// Lexicographic order on byte strings, a prefix first.
pub open spec fn lex_le(a: Seq<u8>, b: Seq<u8>) -> bool
    decreases a.len(),
{
    if a.len() == 0 {
        true
    } else if b.len() == 0 {
        false
    } else if a[0] != b[0] {
        a[0] < b[0]
    } else {
        lex_le(a.drop_first(), b.drop_first())
    }
}

/// Eviction order: older access first, ties broken by the path's bytes.
pub open spec fn entry_le(a: EntryView, b: EntryView) -> bool {
    a.accessed < b.accessed || (a.accessed == b.accessed && lex_le(
        encode_utf8(a.path),
        encode_utf8(b.path),
    ))
}

/// Whether entries are in eviction order.
pub open spec fn in_eviction_order(s: Seq<EntryView>) -> bool {
    forall|i: int, j: int| 0 <= i < j < s.len() ==> entry_le(#[trigger] s[i], #[trigger] s[j])
}

/// The total size of a list of entries.
pub open spec fn sum_sizes(s: Seq<EntryView>) -> int
    decreases s.len(),
{
    if s.len() == 0 {
        0
    } else {
        sum_sizes(s.drop_last()) + s.last().size
    }
}

pub proof fn lemma_lex_total(a: Seq<u8>, b: Seq<u8>)
    ensures
        lex_le(a, b) || lex_le(b, a),
    decreases a.len(),
{
    if a.len() > 0 && b.len() > 0 && a[0] == b[0] {
        lemma_lex_total(a.drop_first(), b.drop_first());
    }
}

pub proof fn lemma_lex_trans(a: Seq<u8>, b: Seq<u8>, c: Seq<u8>)
    requires
        lex_le(a, b),
        lex_le(b, c),
    ensures
        lex_le(a, c),
    decreases a.len(),
{
    if a.len() > 0 && b.len() > 0 && c.len() > 0 && a[0] == b[0] && b[0] == c[0] {
        lemma_lex_trans(a.drop_first(), b.drop_first(), c.drop_first());
    }
}

pub proof fn lemma_entry_total(a: EntryView, b: EntryView)
    ensures
        entry_le(a, b) || entry_le(b, a),
{
    lemma_lex_total(encode_utf8(a.path), encode_utf8(b.path));
}

pub proof fn lemma_entry_trans(a: EntryView, b: EntryView, c: EntryView)
    requires
        entry_le(a, b),
        entry_le(b, c),
    ensures
        entry_le(a, c),
{
    if a.accessed == b.accessed && b.accessed == c.accessed {
        lemma_lex_trans(encode_utf8(a.path), encode_utf8(b.path), encode_utf8(c.path));
    }
}

/// Compares two paths by their bytes.
fn path_le(a: &str, b: &str) -> (r: bool)
    ensures
        r == lex_le(encode_utf8(a@), encode_utf8(b@)),
{
    let x = a.as_bytes();
    let y = b.as_bytes();
    let ghost xs = x@;
    let ghost ys = y@;
    let mut i: usize = 0;
    assert(xs.skip(0) =~= xs);
    assert(ys.skip(0) =~= ys);
    while i < x.len() && i < y.len() && x[i] == y[i]
        invariant
            x@ == xs,
            y@ == ys,
            xs == encode_utf8(a@),
            ys == encode_utf8(b@),
            i <= xs.len(),
            i <= ys.len(),
            lex_le(xs, ys) == lex_le(xs.skip(i as int), ys.skip(i as int)),
        decreases xs.len() - i,
    {
        assert(xs.skip(i as int).drop_first() =~= xs.skip(i + 1));
        assert(ys.skip(i as int).drop_first() =~= ys.skip(i + 1));
        i = i + 1;
    }
    if i == x.len() {
        true
    } else if i == y.len() {
        false
    } else {
        x[i] < y[i]
    }
}

/// Whether entry `a` comes before or with entry `b` in eviction order.
pub fn entry_precedes(a: &CacheEntry, b: &CacheEntry) -> (r: bool)
    ensures
        r == entry_le(a@, b@),
{
    if a.accessed_nanos < b.accessed_nanos {
        true
    } else if a.accessed_nanos == b.accessed_nanos {
        path_le(a.path.as_str(), b.path.as_str())
    } else {
        false
    }
}

/// Whether a file name follows the artifact naming convention.
pub fn is_artifact_file_name(name: &str) -> (r: bool)
    ensures
        r == is_artifact_name(name@),
{
    proof {
        reveal_strlit(".artifact");
    }
    let suffix = ".artifact";
    let n = name.unicode_len();
    let k = suffix.unicode_len();
    if n <= k {
        return false;
    }
    let mut j: usize = 0;
    while j < k
        invariant
            n == name@.len(),
            k == suffix@.len(),
            suffix@ == artifact_suffix(),
            n > k,
            j <= k,
            forall|t: int| 0 <= t < j ==> name@[n - k + t] == suffix@[t],
        decreases k - j,
    {
        if name.get_char(n - k + j) != suffix.get_char(j) {
            assert(name@.subrange(n - k, n as int)[j as int] != artifact_suffix()[j as int]);
            return false;
        }
        j = j + 1;
    }
    assert(name@.subrange(n - k, n as int) =~= artifact_suffix());
    true
}

/// Inserts `e` into `out`, which is sorted, after every entry that does not
/// come after it.
fn insert_sorted(out: &mut Vec<CacheEntry>, e: CacheEntry)
    requires
        in_eviction_order(views(old(out)@)),
    ensures
        in_eviction_order(views(final(out)@)),
        views(final(out)@).to_multiset() == views(old(out)@).to_multiset().insert(e@),
{
    let ghost old_v = views(out@);
    let mut p: usize = 0;
    loop
        invariant
            views(out@) == old_v,
            p <= out.len(),
            forall|k: int| 0 <= k < p ==> entry_le(#[trigger] old_v[k], e@),
        ensures
            p <= out.len(),
            forall|k: int| 0 <= k < p ==> entry_le(#[trigger] old_v[k], e@),
            p < out.len() ==> !entry_le(old_v[p as int], e@),
        decreases out.len() - p,
    {
        if p >= out.len() || !entry_precedes(&out[p], &e) {
            break;
        }
        p = p + 1;
    }
    proof {
        if p < out.len() {
            lemma_entry_total(old_v[p as int], e@);
        }
    }
    let ghost ev = e@;
    out.insert(p, e);
    proof {
        let nv = views(out@);
        assert(nv =~= old_v.insert(p as int, ev));
        to_multiset_insert(old_v, p as int, ev);
        assert forall|i: int, j: int| 0 <= i < j < nv.len() implies entry_le(nv[i], nv[j]) by {
            if j < p {
            } else if i < p && j == p {
            } else if i < p {
                assert(entry_le(old_v[i], old_v[j - 1]));
            } else if i == p && j == p + 1 {
            } else if i == p {
                assert(entry_le(old_v[p as int], old_v[j - 1]));
                lemma_entry_trans(ev, old_v[p as int], old_v[j - 1]);
            } else {
                assert(entry_le(old_v[i - 1], old_v[j - 1]));
            }
        }
    }
}

/// The cache's entries from a listing of its directory `dir`: the regular
/// files that follow the naming convention, oldest access first, ties broken
/// by path. A file without an access time counts as accessed at `now`.
pub fn list_entries(dir: &str, listing: &Vec<ScannedFile>, now: u128) -> (r: Vec<CacheEntry>)
    ensures
        in_eviction_order(views(r@)),
        views(r@).to_multiset() == admitted(dir@, listing@, now as int).to_multiset(),
{
    let mut out: Vec<CacheEntry> = Vec::new();
    let mut i: usize = 0;
    assert(listing@.subrange(0, 0) =~= Seq::<ScannedFile>::empty());
    assert(views(out@) =~= Seq::<EntryView>::empty());
    while i < listing.len()
        invariant
            i <= listing.len(),
            in_eviction_order(views(out@)),
            views(out@).to_multiset() == admitted(
                dir@,
                listing@.subrange(0, i as int),
                now as int,
            ).to_multiset(),
        decreases listing.len() - i,
    {
        let f = &listing[i];
        assert(listing@.subrange(0, i + 1).drop_last() =~= listing@.subrange(0, i as int));
        if f.is_file && is_artifact_file_name(f.name.as_str()) {
            let accessed = match f.accessed_nanos {
                Some(t) => t,
                None => now,
            };
            let e = CacheEntry { path: join(dir, f.name.as_str()), accessed_nanos: accessed, size: f.size };
            let ghost before = admitted(dir@, listing@.subrange(0, i as int), now as int);
            proof {
                vstd::seq_lib::to_multiset_build(before, e@);
            }
            insert_sorted(&mut out, e);
        }
        i = i + 1;
    }
    assert(listing@.subrange(0, i as int) =~= listing@);
    out
}

/// The total size of the entries.
pub fn total_size(entries: &Vec<CacheEntry>) -> (r: u128)
    ensures
        r == sum_sizes(views(entries@)),
{
    let mut total: u128 = 0;
    let mut i: usize = 0;
    while i < entries.len()
        invariant
            i <= entries.len(),
            total == sum_sizes(views(entries@.subrange(0, i as int))),
            total <= i * 0x1_0000_0000_0000_0000,
        decreases entries.len() - i,
    {
        assert(views(entries@.subrange(0, i + 1)).drop_last() =~= views(
            entries@.subrange(0, i as int),
        ));
        assert(i < 0x1_0000_0000_0000_0000) by {
            assert(entries@.len() <= usize::MAX);
        }
        assert((i + 1) * 0x1_0000_0000_0000_0000 == i * 0x1_0000_0000_0000_0000
            + 0x1_0000_0000_0000_0000) by (nonlinear_arith);
        assert(i * 0x1_0000_0000_0000_0000 + 0x1_0000_0000_0000_0000
            <= 0x1_0000_0000_0000_0000 * 0x1_0000_0000_0000_0000) by (nonlinear_arith)
            requires
                i < 0x1_0000_0000_0000_0000,
        ;
        total = total + entries[i].size as u128;
        i = i + 1;
    }
    assert(entries@.subrange(0, i as int) =~= entries@);
    total
}

/// Statistics of the cache.
#[derive(Debug, Clone)]
pub struct CacheStats {
    /// The cache directory.
    pub cache_dir: String,
    /// The total size of its entries in bytes.
    pub total_size_bytes: u128,
    /// The number of its entries.
    pub file_count: usize,
    /// The configured size limit in bytes.
    pub size_limit_bytes: u64,
}

/// Statistics of the cache in `dir` with the given entries and limit.
pub fn cache_stats(dir: &str, entries: &Vec<CacheEntry>, limit: u64) -> (r: CacheStats)
    ensures
        r.cache_dir@ == dir@,
        r.total_size_bytes == sum_sizes(views(entries@)),
        r.file_count == entries@.len(),
        r.size_limit_bytes == limit,
{
    CacheStats {
        cache_dir: String::from_str(dir),
        total_size_bytes: total_size(entries),
        file_count: entries.len(),
        size_limit_bytes: limit,
    }
}

/// Touching an entry on a cache hit sets its access time to now: an entry
/// accessed later than another comes after it in eviction order, and in an
/// ordered list it stands after every entry accessed before it.
pub proof fn lemma_touched_sorts_after(s: Seq<EntryView>, i: int)
    requires
        in_eviction_order(s),
        0 <= i < s.len(),
    ensures
        forall|j: int|
            0 <= j < s.len() && (#[trigger] s[j]).accessed < s[i].accessed ==> j < i && entry_le(
                s[j],
                s[i],
            ) && !entry_le(s[i], s[j]),
{
    assert forall|j: int| 0 <= j < s.len() && (#[trigger] s[j]).accessed < s[i].accessed implies j < i
        && entry_le(s[j], s[i]) && !entry_le(s[i], s[j]) by {
        if j > i {
            assert(entry_le(s[i], s[j]));
        }
    }
}

} // verus!
