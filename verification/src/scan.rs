//! Searching text at nesting depth zero.
//!
//! A scan walks the text left to right, counting open parentheses (and,
//! when asked, square brackets) and skipping over quoted strings; a pattern
//! counts only where the nesting depth is zero and no string is open.
use vstd::prelude::*;

use crate::text::{occurs_at, matches_at, slice_of, views};

verus! {

/// Position of the first `q` at or after `i`, or the length of `s`.
pub open spec fn quote_close(s: Seq<char>, i: int, q: char) -> int
    decreases s.len() - i,
{
    if i < 0 || i >= s.len() {
        if i < 0 { 0 } else { s.len() as int }
    } else if s[i] == q {
        i
    } else {
        quote_close(s, i + 1, q)
    }
}

pub proof fn lemma_quote_close(s: Seq<char>, i: int, q: char)
    requires
        0 <= i <= s.len(),
    ensures
        i <= quote_close(s, i, q) <= s.len(),
        quote_close(s, i, q) < s.len() ==> s[quote_close(s, i, q)] == q,
    decreases s.len() - i,
{
    if i < s.len() && s[i] != q {
        lemma_quote_close(s, i + 1, q);
    }
}

pub open spec fn is_quote(c: char) -> bool {
    c == '\'' || c == '"'
}

pub open spec fn is_opener(c: char, square: bool) -> bool {
    c == '(' || (square && c == '[')
}

pub open spec fn is_closer(c: char, square: bool) -> bool {
    c == ')' || (square && c == ']')
}

/// Position after a quoted string whose opening quote is at `i`.
pub open spec fn after_quote(s: Seq<char>, i: int) -> int {
    let j = quote_close(s, i + 1, s[i]);
    if j < s.len() {
        j + 1
    } else {
        j
    }
}

/// First position at or after `i` where `p` occurs at nesting depth zero,
/// starting the walk with nesting `depth`.
pub open spec fn scan(s: Seq<char>, p: Seq<char>, i: int, depth: nat, square: bool) -> Option<int>
    decreases s.len() - i,
{
    if i < 0 || i >= s.len() {
        None
    } else if is_opener(s[i], square) {
        scan(s, p, i + 1, depth + 1, square)
    } else if is_closer(s[i], square) {
        scan(s, p, i + 1, if depth > 0 { (depth - 1) as nat } else { 0 }, square)
    } else if is_quote(s[i]) {
        let j = after_quote(s, i);
        if i < j <= s.len() {
            scan(s, p, j, depth, square)
        } else {
            None
        }
    } else if depth == 0 && occurs_at(s, i, p) {
        Some(i)
    } else {
        scan(s, p, i + 1, depth, square)
    }
}

/// First position of `p` at nesting depth zero.
pub open spec fn top_find(s: Seq<char>, p: Seq<char>, square: bool) -> Option<int> {
    scan(s, p, 0, 0, square)
}

pub proof fn lemma_after_quote(s: Seq<char>, i: int)
    requires
        0 <= i < s.len(),
    ensures
        i < after_quote(s, i) <= s.len(),
{
    lemma_quote_close(s, i + 1, s[i]);
}

pub proof fn lemma_scan(s: Seq<char>, p: Seq<char>, i: int, depth: nat, square: bool)
    requires
        0 <= i,
    ensures
        scan(s, p, i, depth, square) matches Some(k) ==> i <= k && occurs_at(s, k, p),
    decreases s.len() - i,
{
    if i < s.len() {
        if is_opener(s[i], square) {
            lemma_scan(s, p, i + 1, depth + 1, square);
        } else if is_closer(s[i], square) {
            lemma_scan(s, p, i + 1, if depth > 0 { (depth - 1) as nat } else { 0 }, square);
        } else if is_quote(s[i]) {
            lemma_after_quote(s, i);
            lemma_scan(s, p, after_quote(s, i), depth, square);
        } else if depth == 0 && occurs_at(s, i, p) {
        } else {
            lemma_scan(s, p, i + 1, depth, square);
        }
    }
}

/// Position after the quoted string whose opening quote is at `i`.
fn skip_quoted(s: &[char], i: usize) -> (r: usize)
    requires
        i < s@.len(),
    ensures
        r == after_quote(s@, i as int),
{
    let n = s.len();
    let q = s[i];
    let mut k = i + 1;
    while k < n && s[k] != q
        invariant
            n == s@.len(),
            i < k <= n,
            quote_close(s@, i + 1, q) == quote_close(s@, k as int, q),
        decreases n - k,
    {
        k = k + 1;
    }
    if k < n {
        k + 1
    } else {
        k
    }
}

/// First position at or after `from` where `p` occurs at nesting depth zero.
pub fn find_top(s: &[char], p: &[char], from: usize, square: bool) -> (r: Option<usize>)
    ensures
        r matches Some(k) ==> scan(s@, p@, from as int, 0, square) == Some(k as int),
        r is None ==> scan(s@, p@, from as int, 0, square) is None,
{
    let n = s.len();
    let mut i = from;
    let mut depth: usize = 0;
    while i < n
        invariant
            n == s@.len(),
            depth <= i,
            scan(s@, p@, from as int, 0, square) == scan(s@, p@, i as int, depth as nat, square),
        decreases n - i,
    {
        let c = s[i];
        if c == '(' || (square && c == '[') {
            depth = depth + 1;
            i = i + 1;
        } else if c == ')' || (square && c == ']') {
            if depth > 0 {
                depth = depth - 1;
            }
            i = i + 1;
        } else if c == '\'' || c == '"' {
            proof {
                lemma_after_quote(s@, i as int);
            }
            let j = skip_quoted(s, i);
            i = j;
        } else if depth == 0 && matches_at(s, i, p) {
            return Some(i);
        } else {
            i = i + 1;
        }
    }
    None
}

/// The pieces of `s` from `i` on between occurrences of `p` at nesting depth
/// zero (the depth restarts at zero after each occurrence).
pub open spec fn split_from(s: Seq<char>, p: Seq<char>, i: int, square: bool) -> Seq<Seq<char>>
    decreases s.len() - i,
{
    if i < 0 || i > s.len() || p.len() == 0 {
        Seq::empty()
    } else {
        match scan(s, p, i, 0, square) {
            Some(k) => if i <= k && k + p.len() <= s.len() {
                seq![s.subrange(i, k)] + split_from(s, p, k + p.len(), square)
            } else {
                Seq::empty()
            },
            None => seq![s.subrange(i, s.len() as int)],
        }
    }
}

pub proof fn lemma_split_from(s: Seq<char>, p: Seq<char>, i: int, square: bool)
    requires
        0 <= i,
    ensures
        forall|k: int|
            0 <= k < split_from(s, p, i, square).len() ==> #[trigger] split_from(
                s,
                p,
                i,
                square,
            )[k].len() <= s.len() - i,
    decreases s.len() - i,
{
    if i <= s.len() && p.len() > 0 {
        match scan(s, p, i, 0, square) {
            Some(k) => if i <= k && k + p.len() <= s.len() {
                lemma_split_from(s, p, k + p.len(), square);
                let rest = split_from(s, p, k + p.len(), square);
                assert forall|m: int| 0 <= m < split_from(s, p, i, square).len() implies #[trigger] split_from(
                    s,
                    p,
                    i,
                    square,
                )[m].len() <= s.len() - i by {
                    if m > 0 {
                        assert(split_from(s, p, i, square)[m] == rest[m - 1]);
                    }
                }
            },
            None => {},
        }
    }
}

/// The pieces of `s` between occurrences of `p` at nesting depth zero.
pub open spec fn top_split(s: Seq<char>, p: Seq<char>, square: bool) -> Seq<Seq<char>> {
    split_from(s, p, 0, square)
}

/// Splits `s` at the occurrences of `p` at nesting depth zero.
pub fn split_top(s: &[char], p: &[char], square: bool) -> (r: Vec<Vec<char>>)
    requires
        p@.len() > 0,
    ensures
        views(r@) == top_split(s@, p@, square),
{
    let n = s.len();
    let mut out: Vec<Vec<char>> = Vec::new();
    let mut i: usize = 0;
    loop
        invariant
            n == s@.len(),
            p@.len() > 0,
            i <= n,
            top_split(s@, p@, square) == views(out@) + split_from(s@, p@, i as int, square),
        decreases n - i,
    {
        proof {
            lemma_scan(s@, p@, i as int, 0, square);
        }
        match find_top(s, p, i, square) {
            Some(k) => {
                let piece = slice_of(s, i, k);
                let ghost before = views(out@);
                out.push(piece);
                assert(views(out@) =~= before.push(piece@));
                assert(split_from(s@, p@, i as int, square) == seq![piece@] + split_from(
                    s@,
                    p@,
                    k + p@.len(),
                    square,
                ));
                assert(views(out@) + split_from(s@, p@, k + p@.len(), square) =~= before
                    + split_from(s@, p@, i as int, square));
                i = k + p.len();
            },
            None => {
                let piece = slice_of(s, i, n);
                let ghost before = views(out@);
                out.push(piece);
                assert(views(out@) =~= before.push(piece@));
                assert(views(out@) =~= before + split_from(s@, p@, i as int, square));
                return out;
            },
        }
    }
}

} // verus!
