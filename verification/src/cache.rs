//! The decisions of the template cache: content hashing, when a cached
//! entry can be reused, and which entries LRU eviction removes.
use vstd::prelude::*;
use vstd::string::StringSliceAdditionalSpecFns;

use crate::frontmatter::decls::{decls_view, value_views};
use crate::frontmatter::resolve::{defaults_map, insert_defaults};
use crate::frontmatter::Frontmatter;
use crate::value::ValueMap;

verus! {

// ---------------------------------------------------------------------------
// Content hash (FNV-1a, 64 bit)
// ---------------------------------------------------------------------------
pub open spec fn fnv_offset_basis() -> u64 {
    0xcbf2_9ce4_8422_2325
}

pub open spec fn fnv_prime() -> u64 {
    0x0000_0100_0000_01b3
}

/// One FNV-1a step: xor in the byte, then multiply by the prime modulo 2^64.
pub open spec fn fnv_step(h: u64, b: u8) -> u64 {
    (((h ^ (b as u64)) as nat * fnv_prime() as nat) % 0x1_0000_0000_0000_0000nat) as u64
}

/// The 64-bit FNV-1a hash of `bytes`.
pub open spec fn fnv1a(bytes: Seq<u8>) -> u64
    decreases bytes.len(),
{
    if bytes.len() == 0 {
        fnv_offset_basis()
    } else {
        fnv_step(fnv1a(bytes.drop_last()), bytes.last())
    }
}

/// The 64-bit FNV-1a hash of a byte sequence.
pub fn fnv1a_hash(bytes: &[u8]) -> (r: u64)
    ensures
        r == fnv1a(bytes@),
{
    let mut h: u64 = 0xcbf2_9ce4_8422_2325;
    let mut i: usize = 0;
    assert(bytes@.take(0) =~= Seq::<u8>::empty());
    while i < bytes.len()
        invariant
            i <= bytes@.len(),
            h == fnv1a(bytes@.take(i as int)),
        decreases bytes@.len() - i,
    {
        assert(bytes@.take(i + 1).drop_last() =~= bytes@.take(i as int));
        assert(bytes@.take(i + 1).last() == bytes@[i as int]);
        h = (h ^ (bytes[i] as u64)).wrapping_mul(0x0000_0100_0000_01b3);
        i = i + 1;
    }
    assert(bytes@.take(bytes@.len() as int) =~= bytes@);
    h
}

/// Content hash of a source text: FNV-1a over its UTF-8 bytes. The same
/// source always gives the same hash.
pub fn hash_source(source: &str) -> (r: u64)
    ensures
        r == fnv1a(source.spec_bytes()),
{
    fnv1a_hash(source.as_bytes())
}

// ---------------------------------------------------------------------------
// Reuse of cached entries
// ---------------------------------------------------------------------------
/// What the cache holds for a file: the modification time it was read at
/// (as a number that orders and compares like the time) and its content
/// hash.
#[derive(Debug, Clone, Copy, PartialEq, Eq)]
pub struct EntryStamp {
    pub modified: u128,
    pub source_hash: u64,
}

/// The next step of a load after the file's modification time is known.
#[derive(Debug, Clone, Copy, PartialEq, Eq)]
pub enum AfterStat {
    /// The cached entry is current: use it without reading the file.
    UseCached,
    /// Read the file and hash its source.
    ReadSource,
}

/// The next step of a load after the source is read and hashed.
#[derive(Debug, Clone, Copy, PartialEq, Eq)]
pub enum AfterRead {
    /// The content is unchanged: use the cached entry and record the new
    /// modification time.
    RefreshCached,
    /// Compile the source and store a new entry.
    Compile,
}

/// A cached entry whose modification time matches the file is used as it is.
pub fn check_modified(entry: Option<EntryStamp>, file_modified: u128) -> (r: AfterStat)
    ensures
        r == (if entry matches Some(e) && e.modified == file_modified {
            AfterStat::UseCached
        } else {
            AfterStat::ReadSource
        }),
{
    match entry {
        Some(e) => if e.modified == file_modified {
            AfterStat::UseCached
        } else {
            AfterStat::ReadSource
        },
        None => AfterStat::ReadSource,
    }
}

/// A cached entry whose content hash matches the source read is reused.
pub fn check_hash(entry: Option<EntryStamp>, source_hash: u64) -> (r: AfterRead)
    ensures
        r == (if entry matches Some(e) && e.source_hash == source_hash {
            AfterRead::RefreshCached
        } else {
            AfterRead::Compile
        }),
{
    match entry {
        Some(e) => if e.source_hash == source_hash {
            AfterRead::RefreshCached
        } else {
            AfterRead::Compile
        },
        None => AfterRead::Compile,
    }
}

// ---------------------------------------------------------------------------
// Constants of an included template
// ---------------------------------------------------------------------------
/// The constants that an included template renders with: the values of its
/// `consts:` declarations, and each resolved `env:` value whose name no
/// constant takes.
pub fn include_consts(fm: &Frontmatter) -> (r: ValueMap)
    ensures
        value_views(r@) == defaults_map(decls_view(fm.env@)).union_prefer_right(
            defaults_map(decls_view(fm.consts@)),
        ),
{
    let mut m = ValueMap::new();
    insert_defaults(&mut m, &fm.env);
    assert(value_views(crate::value::no_entries()).union_prefer_right(defaults_map(decls_view(fm.env@)))
        =~= defaults_map(decls_view(fm.env@)));
    insert_defaults(&mut m, &fm.consts);
    m
}

// ---------------------------------------------------------------------------
// LRU eviction
// ---------------------------------------------------------------------------
/// The number of entries to evict from a cache of `len` entries before an
/// insert: none without a limit or below it; at or above the limit, down to
/// three quarters of it (at least one entry stays).
pub open spec fn evict_count(len: nat, max_entries: Option<nat>) -> nat {
    match max_entries {
        None => 0,
        Some(max) => if len < max {
            0
        } else {
            let keep: nat = if max * 3 / 4 >= 1 {
                max * 3 / 4
            } else {
                1
            };
            if len > keep {
                (len - keep) as nat
            } else {
                0
            }
        },
    }
}

/// How many entries LRU eviction removes from a cache of `len` entries.
pub fn eviction_count(len: usize, max_entries: Option<usize>) -> (r: usize)
    requires
        max_entries matches Some(m) ==> m <= usize::MAX / 3,
    ensures
        r == evict_count(
            len as nat,
            match max_entries {
                Some(m) => Some(m as nat),
                None => None,
            },
        ),
{
    match max_entries {
        None => 0,
        Some(max) => {
            if len < max {
                return 0;
            }
            let q = max * 3 / 4;
            let keep = if q >= 1 {
                q
            } else {
                1
            };
            if len > keep {
                len - keep
            } else {
                0
            }
        },
    }
}

/// `chosen` lists `count` distinct positions of `times`, and no position
/// left out has an earlier time than a chosen one.
pub open spec fn oldest_chosen(times: Seq<u64>, chosen: Seq<usize>, count: nat) -> bool {
    &&& chosen.len() == count
    &&& forall|i: int| 0 <= i < chosen.len() ==> (#[trigger] chosen[i]) < times.len()
    &&& forall|i: int, j: int| 0 <= i < j < chosen.len() ==> #[trigger] chosen[i] != #[trigger] chosen[j]
    &&& forall|i: int, k: int|
        0 <= i < chosen.len() && 0 <= k < times.len() && !chosen.contains(k as usize) ==> times[
            #[trigger] chosen[i] as int] <= #[trigger] times[k]
}

/// The positions of the `count` oldest entries, given each entry's last
/// access time; among equal times any may be chosen.
pub fn oldest_entries(times: &Vec<u64>, count: usize) -> (r: Vec<usize>)
    requires
        count <= times@.len(),
    ensures
        oldest_chosen(times@, r@, count as nat),
{
    let n = times.len();
    let mut taken: Vec<bool> = Vec::new();
    let mut j: usize = 0;
    while j < n
        invariant
            j <= n == times@.len(),
            taken@.len() == j,
            forall|q: int| 0 <= q < j ==> !taken@[q],
        decreases n - j,
    {
        taken.push(false);
        j = j + 1;
    }
    let mut out: Vec<usize> = Vec::new();
    proof {
        lemma_count_none(taken@);
    }
    while out.len() < count
        invariant
            n == times@.len() == taken@.len(),
            count <= n,
            out@.len() <= count,
            forall|i: int| 0 <= i < out@.len() ==> (#[trigger] out@[i]) < n,
            forall|i: int, k: int| 0 <= i < k < out@.len() ==> #[trigger] out@[i] != #[trigger] out@[k],
            forall|q: int| 0 <= q < n ==> (#[trigger] taken@[q] <==> out@.contains(q as usize)),
            forall|i: int, k: int|
                0 <= i < out@.len() && 0 <= k < n && !taken@[k] ==> times@[#[trigger] out@[i] as int]
                    <= #[trigger] times@[k],
            count_true(taken@) == out@.len(),
        decreases count - out@.len(),
    {
        let mut best: usize = n;
        let mut k: usize = 0;
        while k < n
            invariant
                n == times@.len() == taken@.len(),
                k <= n,
                best == n || (best < k && !taken@[best as int]),
                best < n ==> forall|q: int| 0 <= q < k && !taken@[q] ==> times@[best as int] <= times@[q],
                best == n ==> forall|q: int| 0 <= q < k ==> taken@[q],
            decreases n - k,
        {
            if !taken[k] {
                if best == n || times[k] < times[best] {
                    best = k;
                }
            }
            k = k + 1;
        }
        assert(best < n) by {
            if best == n {
                lemma_count_all(taken@);
            }
        }
        let ghost before = out@;
        proof {
            lemma_count_set(taken@, best as int);
        }
        taken.set(best, true);
        out.push(best);
        proof {
            assert forall|q: int| 0 <= q < n implies (#[trigger] taken@[q] <==> out@.contains(q as usize)) by {
                if q == best as int {
                    assert(out@[out@.len() - 1] == best);
                } else {
                    if out@.contains(q as usize) {
                        let i = choose|i: int| 0 <= i < out@.len() && out@[i] == q as usize;
                        assert(before[i] == q as usize);
                    }
                    if before.contains(q as usize) {
                        let i = choose|i: int| 0 <= i < before.len() && before[i] == q as usize;
                        assert(out@[i] == q as usize);
                    }
                }
            }
            assert forall|i: int, k2: int| 0 <= i < out@.len() && 0 <= k2 < n && !taken@[k2] implies times@[
                #[trigger] out@[i] as int] <= #[trigger] times@[k2] by {
                if i < before.len() {
                    assert(out@[i] == before[i]);
                }
            }
            assert forall|i: int, k2: int| 0 <= i < k2 < out@.len() implies #[trigger] out@[i] != #[trigger] out@[k2] by {
                if k2 == out@.len() - 1 {
                    assert(before.contains(out@[i]));
                }
            }
        }
    }
    proof {
        assert forall|i: int, k: int|
            0 <= i < out@.len() && 0 <= k < times@.len() && !out@.contains(k as usize) implies times@[
                #[trigger] out@[i] as int] <= #[trigger] times@[k] by {
            assert(!taken@[k]);
        }
    }
    out
}

/// The number of `true` entries.
pub open spec fn count_true(s: Seq<bool>) -> nat
    decreases s.len(),
{
    if s.len() == 0 {
        0
    } else {
        count_true(s.drop_last()) + if s.last() {
            1nat
        } else {
            0nat
        }
    }
}

proof fn lemma_count_none(s: Seq<bool>)
    requires
        forall|q: int| 0 <= q < s.len() ==> !s[q],
    ensures
        count_true(s) == 0,
    decreases s.len(),
{
    if s.len() > 0 {
        lemma_count_none(s.drop_last());
    }
}

proof fn lemma_count_all(s: Seq<bool>)
    requires
        forall|q: int| 0 <= q < s.len() ==> s[q],
    ensures
        count_true(s) == s.len(),
    decreases s.len(),
{
    if s.len() > 0 {
        lemma_count_all(s.drop_last());
    }
}

proof fn lemma_count_set(s: Seq<bool>, k: int)
    requires
        0 <= k < s.len(),
        !s[k],
    ensures
        count_true(s.update(k, true)) == count_true(s) + 1,
    decreases s.len(),
{
    let t = s.update(k, true);
    if k == s.len() - 1 {
        assert(t.drop_last() =~= s.drop_last());
    } else {
        assert(t.drop_last() =~= s.drop_last().update(k, true));
        lemma_count_set(s.drop_last(), k);
    }
}

} // verus!
