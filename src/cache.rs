use vstd::prelude::*;

use crate::text::join3;

verus! {

/// Metadata of one cached blob; times are microseconds since the Unix epoch.
#[derive(Debug)]
pub struct CacheEntry {
    pub digest: String,
    pub size: u64,
    pub last_accessed: i64,
    pub created: i64,
}

/// Relies on `chrono::Utc::now`: the current time, read as microseconds since the
/// Unix epoch. Nothing is known of the value.
#[verifier::external_body]
fn now_micros() -> (r: i64) {
    chrono::Utc::now().timestamp_micros()
}

/// Relies on `slice::sort_by_key` with the `last_accessed` field as key: the same
/// entries, in ascending order of that key.
#[verifier::external_body]
fn sort_by_last_accessed(v: &mut Vec<CacheEntry>)
    ensures
        final(v)@.to_multiset() == old(v)@.to_multiset(),
        final(v)@.len() == old(v)@.len(),
        lru_sorted(final(v)@),
{
    v.sort_by_key(|e| e.last_accessed)
}

/// Least recently accessed first.
pub open spec fn lru_sorted(s: Seq<CacheEntry>) -> bool {
    forall|i: int, j: int| 0 <= i < j < s.len() ==> #[trigger] s[i].last_accessed <= #[trigger] s[j].last_accessed
}

/// The digest with `:` replaced by `_`.
pub open spec fn safe_digest_of(d: Seq<char>) -> Seq<char> {
    Seq::new(d.len(), |i: int| if d[i] == ':' { '_' } else { d[i] })
}

/// The first two characters of the safe digest, or all of it when shorter.
pub open spec fn fan_out_of(d: Seq<char>) -> Seq<char> {
    let s = safe_digest_of(d);
    if s.len() < 2 {
        s
    } else {
        s.subrange(0, 2)
    }
}

/// Path of a blob below the cache directory: `blobs/<pp>/<safe_digest>`.
pub open spec fn blob_path_of(d: Seq<char>) -> Seq<char> {
    "blobs/"@ + fan_out_of(d) + "/"@ + safe_digest_of(d)
}

pub fn safe_digest(digest: &str) -> (r: String)
    ensures
        r@ == safe_digest_of(digest@),
{
    let n = digest.unicode_len();
    let mut r = String::new();
    let mut i: usize = 0;
    while i < n
        invariant
            n == digest@.len(),
            0 <= i <= n,
            r@ == safe_digest_of(digest@.subrange(0, i as int)),
        decreases n - i,
    {
        let c = digest.get_char(i);
        if c == ':' {
            r.append("_");
        } else {
            r.append(digest.substring_char(i, i + 1));
        }
        proof {
            reveal_strlit("_");
        }
        assert(r@ =~= safe_digest_of(digest@.subrange(0, i + 1)));
        i = i + 1;
    }
    assert(digest@.subrange(0, n as int) == digest@);
    r
}

/// Where a blob is stored, relative to the cache directory.
pub fn blob_relative_path(digest: &str) -> (r: String)
    ensures
        r@ == blob_path_of(digest@),
{
    let safe = safe_digest(digest);
    let n = safe.unicode_len();
    let fan = if n < 2 {
        safe.as_str()
    } else {
        safe.as_str().substring_char(0, 2)
    };
    let head = join3("blobs/", fan, "/");
    crate::text::join2(head.as_str(), safe.as_str())
}

/// A fresh entry for a blob of `size` bytes stored at time `now`.
pub fn new_entry(digest: &str, size: u64, now: i64) -> (e: CacheEntry)
    ensures
        e.digest@ == digest@,
        e.size == size,
        e.created == now,
        e.last_accessed == now,
{
    CacheEntry { digest: String::from_str(digest), size, last_accessed: now, created: now }
}

/// A fresh entry stamped with the current time.
pub fn new_entry_now(digest: &str, size: u64) -> (e: CacheEntry)
    ensures
        e.digest@ == digest@,
        e.size == size,
        e.created == e.last_accessed,
{
    new_entry(digest, size, now_micros())
}

/// The entry after a hit at time `now`.
pub fn touched(entry: CacheEntry, now: i64) -> (e: CacheEntry)
    ensures
        e.digest@ == entry.digest@,
        e.size == entry.size,
        e.created == entry.created,
        e.last_accessed == now,
{
    CacheEntry { last_accessed: now, ..entry }
}

/// The entry after a hit now.
pub fn touched_now(entry: CacheEntry) -> (e: CacheEntry)
    ensures
        e.digest@ == entry.digest@,
        e.size == entry.size,
        e.created == entry.created,
{
    touched(entry, now_micros())
}

/// Strictly older than the maximum age: an entry exactly at the boundary stays.
pub open spec fn expired(e: CacheEntry, now: i64, max_age_seconds: u64) -> bool {
    now - e.last_accessed > max_age_seconds * 1_000_000
}

pub fn is_expired(entry: &CacheEntry, now: i64, max_age_seconds: u64) -> (r: bool)
    ensures
        r == expired(*entry, now, max_age_seconds),
{
    (now as i128) - (entry.last_accessed as i128) > (max_age_seconds as i128) * 1_000_000
}

/// The expired entries of `s`, in order.
pub open spec fn expired_of(s: Seq<CacheEntry>, now: i64, max_age_seconds: u64) -> Seq<CacheEntry>
    decreases s.len(),
{
    if s.len() == 0 {
        s
    } else {
        let prev = expired_of(s.drop_last(), now, max_age_seconds);
        if expired(s.last(), now, max_age_seconds) {
            prev.push(s.last())
        } else {
            prev
        }
    }
}

/// The entries of `s` that are not expired, in order.
pub open spec fn alive_of(s: Seq<CacheEntry>, now: i64, max_age_seconds: u64) -> Seq<CacheEntry>
    decreases s.len(),
{
    if s.len() == 0 {
        s
    } else {
        let prev = alive_of(s.drop_last(), now, max_age_seconds);
        if expired(s.last(), now, max_age_seconds) {
            prev
        } else {
            prev.push(s.last())
        }
    }
}

/// Splits the entries into those to remove for age and those that stay.
pub fn partition_expired(entries: Vec<CacheEntry>, now: i64, max_age_seconds: u64) -> (r: (
    Vec<CacheEntry>,
    Vec<CacheEntry>,
))
    ensures
        r.0@ == expired_of(entries@, now, max_age_seconds),
        r.1@ == alive_of(entries@, now, max_age_seconds),
{
    let mut expired_list: Vec<CacheEntry> = Vec::new();
    let mut alive: Vec<CacheEntry> = Vec::new();
    let ghost all = entries@;
    let mut rest = entries;
    let n = rest.len();
    let mut i: usize = 0;
    assert(all.subrange(0, n as int) == all);
    while i < n
        invariant
            n == all.len(),
            0 <= i <= n,
            rest@ == all.subrange(i as int, n as int),
            expired_list@ == expired_of(all.subrange(0, i as int), now, max_age_seconds),
            alive@ == alive_of(all.subrange(0, i as int), now, max_age_seconds),
        decreases n - i,
    {
        let e = rest.remove(0);
        assert(e == all[i as int]);
        assert(rest@ =~= all.subrange(i + 1, n as int));
        let ghost prefix = all.subrange(0, i + 1);
        assert(prefix.drop_last() == all.subrange(0, i as int));
        assert(prefix.last() == e);
        if is_expired(&e, now, max_age_seconds) {
            expired_list.push(e);
        } else {
            alive.push(e);
        }
        i = i + 1;
    }
    assert(all.subrange(0, n as int) == all);
    (expired_list, alive)
}

/// The size that eviction brings the cache down to: nine tenths of the limit.
pub open spec fn target_of(max_size: u64) -> int {
    max_size * 9 / 10
}

pub fn eviction_target(max_size_bytes: u64) -> (r: u64)
    ensures
        r == target_of(max_size_bytes),
{
    let q = max_size_bytes / 10;
    let m = max_size_bytes % 10;
    assert(max_size_bytes * 9 / 10 == q * 9 + m * 9 / 10) by (nonlinear_arith)
        requires
            q == max_size_bytes / 10,
            m == max_size_bytes % 10,
    ;
    q * 9 + m * 9 / 10
}

/// Whether the cache is over its size limit.
pub fn needs_eviction(total_size: u64, max_size_bytes: u64) -> (r: bool)
    ensures
        r == (total_size > max_size_bytes),
{
    total_size > max_size_bytes
}

/// Whether eviction goes on once `removed` bytes were freed from `current`.
pub fn keep_evicting(current: u64, removed: u64, target: u64) -> (r: bool)
    ensures
        r == (current - removed > target),
{
    current > removed && current - removed > target
}

/// The remaining entries in least-recently-used order.
pub fn lru_order(alive: Vec<CacheEntry>) -> (r: Vec<CacheEntry>)
    ensures
        r@.to_multiset() == alive@.to_multiset(),
        r@.len() == alive@.len(),
        lru_sorted(r@),
{
    let mut v = alive;
    sort_by_last_accessed(&mut v);
    v
}

/// Sum of the sizes of the entries.
pub open spec fn sum_sizes(s: Seq<CacheEntry>) -> int
    decreases s.len(),
{
    if s.len() == 0 {
        0
    } else {
        sum_sizes(s.drop_last()) + s.last().size
    }
}

pub open spec fn capped(x: int) -> u64 {
    if x > u64::MAX {
        u64::MAX
    } else if x < 0 {
        0
    } else {
        x as u64
    }
}

/// The total after storing `size` more bytes.
pub open spec fn spec_size_after_put(total: u64, size: u64) -> u64 {
    capped(total + size)
}

/// The total after removing an entry of `size` bytes.
pub open spec fn spec_size_after_remove(total: u64, size: u64) -> u64 {
    capped(total - size)
}

pub fn size_after_put(total: u64, size: u64) -> (r: u64)
    ensures
        r == spec_size_after_put(total, size),
{
    total.saturating_add(size)
}

pub fn size_after_remove(total: u64, size: u64) -> (r: u64)
    ensures
        r == spec_size_after_remove(total, size),
{
    total.saturating_sub(size)
}

/// The total after storing `size` bytes under a digest whose earlier entry, if any, had
/// `old` bytes.
pub open spec fn spec_size_after_replace(total: u64, old: Option<u64>, size: u64) -> u64 {
    match old {
        None => spec_size_after_put(total, size),
        Some(o) => spec_size_after_put(spec_size_after_remove(total, o), size),
    }
}

pub fn size_after_replace(total: u64, old: Option<u64>, size: u64) -> (r: u64)
    ensures
        r == spec_size_after_replace(total, old, size),
{
    match old {
        None => size_after_put(total, size),
        Some(o) => size_after_put(size_after_remove(total, o), size),
    }
}

/// Bytes freed so far by eviction, after one more removal of an entry of `size` bytes
/// that did or did not succeed.
pub fn freed_after_removal(removed: u64, size: u64, succeeded: bool) -> (r: u64)
    ensures
        succeeded ==> r == spec_size_after_put(removed, size),
        !succeeded ==> r == removed,
{
    if succeeded {
        size_after_put(removed, size)
    } else {
        removed
    }
}

/// The total size of the index, as recomputed at startup.
pub fn total_of(entries: &Vec<CacheEntry>) -> (r: u64)
    ensures
        r == capped(sum_sizes(entries@)),
{
    let mut total: u64 = 0;
    let mut i: usize = 0;
    while i < entries.len()
        invariant
            0 <= i <= entries@.len(),
            total == capped(sum_sizes(entries@.subrange(0, i as int))),
        decreases entries@.len() - i,
    {
        let ghost prefix = entries@.subrange(0, i + 1);
        assert(prefix.drop_last() == entries@.subrange(0, i as int));
        proof {
            lemma_sum_nonneg(entries@.subrange(0, i as int));
        }
        total = total.saturating_add(entries[i].size);
        i = i + 1;
    }
    assert(entries@.subrange(0, entries@.len() as int) == entries@);
    total
}

proof fn lemma_sum_nonneg(s: Seq<CacheEntry>)
    ensures
        sum_sizes(s) >= 0,
    decreases s.len(),
{
    if s.len() > 0 {
        lemma_sum_nonneg(s.drop_last());
    }
}

/// Storing a blob whose digest the index does not hold keeps the size counter equal to
/// the sum of the sizes in the index, while that sum fits in a `u64`.
pub proof fn lemma_put_keeps_total(index: Seq<CacheEntry>, total: u64, entry: CacheEntry)
    requires
        total == sum_sizes(index),
        forall|i: int| 0 <= i < index.len() ==> #[trigger] index[i].digest@ != entry.digest@,
        sum_sizes(index) + entry.size <= u64::MAX,
    ensures
        spec_size_after_put(total, entry.size) == sum_sizes(index.push(entry)),
{
    assert(index.push(entry).drop_last() == index);
}

proof fn lemma_sum_remove(s: Seq<CacheEntry>, i: int)
    requires
        0 <= i < s.len(),
    ensures
        sum_sizes(s) == sum_sizes(s.remove(i)) + s[i].size,
    decreases s.len(),
{
    if i == s.len() - 1 {
        assert(s.remove(i) == s.drop_last());
    } else {
        lemma_sum_remove(s.drop_last(), i);
        assert(s.remove(i).drop_last() == s.drop_last().remove(i));
        assert(s.remove(i).last() == s.last());
    }
}

/// Removing an entry of the index keeps the size counter equal to the sum of the sizes
/// in the index.
pub proof fn lemma_remove_keeps_total(index: Seq<CacheEntry>, total: u64, i: int)
    requires
        total == sum_sizes(index),
        0 <= i < index.len(),
    ensures
        spec_size_after_remove(total, index[i].size) == sum_sizes(index.remove(i)),
{
    lemma_sum_remove(index, i);
    lemma_sum_nonneg(index.remove(i));
}

/// When every entry is older than the maximum age, a cleanup removes all of them and
/// keeps none.
pub proof fn lemma_all_expired_removes_all(entries: Seq<CacheEntry>, now: i64, max_age_seconds: u64)
    requires
        forall|i: int| 0 <= i < entries.len() ==> expired(#[trigger] entries[i], now, max_age_seconds),
    ensures
        expired_of(entries, now, max_age_seconds) == entries,
        alive_of(entries, now, max_age_seconds).len() == 0,
    decreases entries.len(),
{
    if entries.len() > 0 {
        let prev = entries.drop_last();
        assert forall|i: int| 0 <= i < prev.len() implies expired(#[trigger] prev[i], now, max_age_seconds) by {
            assert(prev[i] == entries[i]);
        }
        lemma_all_expired_removes_all(prev, now, max_age_seconds);
        assert(expired(entries[entries.len() - 1], now, max_age_seconds));
        assert(prev.push(entries.last()) == entries);
    }
}

proof fn lemma_sum_element(s: Seq<CacheEntry>, i: int)
    requires
        0 <= i < s.len(),
    ensures
        s[i].size <= sum_sizes(s),
{
    lemma_sum_remove(s, i);
    lemma_sum_nonneg(s.remove(i));
}

/// Storing a blob over the index entry `i` with the same digest keeps the size counter
/// equal to the sum of the sizes in the index, while that sum fits in a `u64`.
pub proof fn lemma_replace_keeps_total(index: Seq<CacheEntry>, total: u64, i: int, entry: CacheEntry)
    requires
        total == sum_sizes(index),
        0 <= i < index.len(),
        index[i].digest@ == entry.digest@,
        sum_sizes(index) - index[i].size + entry.size <= u64::MAX,
    ensures
        spec_size_after_replace(total, Some(index[i].size), entry.size) == sum_sizes(
            index.remove(i).push(entry),
        ),
{
    lemma_sum_element(index, i);
    lemma_sum_remove(index, i);
    assert(index.remove(i).push(entry).drop_last() == index.remove(i));
}

/// The size counter that startup computes equals the sum of the sizes in the index,
/// while that sum fits in a `u64`.
pub proof fn lemma_startup_total(index: Seq<CacheEntry>)
    requires
        sum_sizes(index) <= u64::MAX,
    ensures
        capped(sum_sizes(index)) == sum_sizes(index),
{
    lemma_sum_nonneg(index);
}

} // verus!
