//! Number literals: integer parsing, float syntax, decimal formatting, and
//! identifiers.
use vstd::prelude::*;

use crate::text::{find_char_at, lemma_find_char_from, slice_of};

verus! {

pub open spec fn is_digit(c: char) -> bool {
    '0' <= c && c <= '9'
}

pub open spec fn digit_val(c: char) -> int {
    c as int - '0' as int
}

pub open spec fn all_digits(d: Seq<char>) -> bool {
    forall|i: int| 0 <= i < d.len() ==> is_digit(#[trigger] d[i])
}

/// The number that a string of decimal digits denotes.
pub open spec fn digits_value(d: Seq<char>) -> int
    decreases d.len(),
{
    if d.len() == 0 {
        0
    } else {
        digits_value(d.drop_last()) * 10 + digit_val(d.last())
    }
}

/// The sign and the digits of an integer literal.
pub open spec fn sign_split(t: Seq<char>) -> (bool, Seq<char>) {
    if t.len() > 0 && t[0] == '-' {
        (true, t.skip(1))
    } else if t.len() > 0 && t[0] == '+' {
        (false, t.skip(1))
    } else {
        (false, t)
    }
}

/// `i64::from_str`: an optional sign and at least one decimal digit, with a
/// value that fits in `i64`.
pub open spec fn int_literal(t: Seq<char>) -> Option<int> {
    let (neg, d) = sign_split(t);
    if d.len() == 0 || !all_digits(d) {
        None
    } else {
        let v = if neg {
            -digits_value(d)
        } else {
            digits_value(d)
        };
        if i64::MIN <= v <= i64::MAX {
            Some(v)
        } else {
            None
        }
    }
}

pub proof fn lemma_digits_value_nonneg(d: Seq<char>)
    requires
        all_digits(d),
    ensures
        digits_value(d) >= 0,
    decreases d.len(),
{
    if d.len() > 0 {
        assert(all_digits(d.drop_last())) by {
            assert forall|i: int| 0 <= i < d.drop_last().len() implies is_digit(
                #[trigger] d.drop_last()[i],
            ) by {
                assert(d.drop_last()[i] == d[i]);
            }
        }
        lemma_digits_value_nonneg(d.drop_last());
        assert(is_digit(d[d.len() - 1]));
    }
}

/// The value of a digit prefix never exceeds the value of the whole.
pub proof fn lemma_digits_prefix(d: Seq<char>, k: int)
    requires
        all_digits(d),
        0 <= k <= d.len(),
    ensures
        digits_value(d.take(k)) <= digits_value(d),
    decreases d.len() - k,
{
    if k < d.len() {
        lemma_digits_prefix(d, k + 1);
        assert(d.take(k + 1).drop_last() =~= d.take(k));
        assert(all_digits(d.take(k))) by {
            assert forall|i: int| 0 <= i < d.take(k).len() implies is_digit(#[trigger] d.take(k)[i]) by {
                assert(d.take(k)[i] == d[i]);
            }
        }
        lemma_digits_value_nonneg(d.take(k));
        assert(is_digit(d[k]));
    } else {
        assert(d.take(k) =~= d);
    }
}

/// `i64::from_str`.
pub fn parse_int(t: &[char]) -> (r: Option<i64>)
    ensures
        match r {
            Some(v) => int_literal(t@) == Some(v as int),
            None => int_literal(t@) is None,
        },
{
    let n = t.len();
    let mut start: usize = 0;
    let mut neg = false;
    if n > 0 && t[0] == '-' {
        start = 1;
        neg = true;
    } else if n > 0 && t[0] == '+' {
        start = 1;
    }
    let ghost d = sign_split(t@).1;
    assert(d =~= t@.skip(start as int));
    if start == n {
        return None;
    }
    let limit: u64 = 0x8000_0000_0000_0000;
    let mut mag: u64 = 0;
    let mut k = start;
    while k < n
        invariant
            n == t@.len(),
            start <= k <= n,
            d == t@.skip(start as int),
            d == sign_split(t@).1,
            neg == sign_split(t@).0,
            limit == 0x8000_0000_0000_0000u64,
            all_digits(d.take(k - start)),
            mag as int == digits_value(d.take(k - start)),
            mag <= limit,
        decreases n - k,
    {
        let c = t[k];
        if !('0' <= c && c <= '9') {
            assert(d[k - start] == c);
            assert(!is_digit(d[k - start]));
            return None;
        }
        assert('0' as u64 == 48);
        assert(c as u64 <= 57 && c as u64 >= 48);
        let dv = (c as u64) - 48;
        assert(dv as int == digit_val(c));
        assert(d.take(k - start + 1).drop_last() =~= d.take(k - start));
        assert(d.take(k - start + 1).last() == c);
        if mag > (limit - dv) / 10 {
            proof {
                let j = k - start + 1;
                assert(all_digits(d.take(j))) by {
                    assert forall|i: int| 0 <= i < d.take(j).len() implies is_digit(
                        #[trigger] d.take(j)[i],
                    ) by {
                        if i < j - 1 {
                            assert(d.take(j)[i] == d.take(j - 1)[i]);
                        }
                    }
                }
                assert(digits_value(d.take(j)) > limit);
                if all_digits(d) {
                    lemma_digits_prefix(d, j);
                }
            }
            return None;
        }
        mag = mag * 10 + dv;
        proof {
            let j = k - start + 1;
            assert forall|i: int| 0 <= i < d.take(j).len() implies is_digit(#[trigger] d.take(j)[i]) by {
                if i < j - 1 {
                    assert(d.take(j)[i] == d.take(j - 1)[i]);
                }
            }
        }
        k = k + 1;
    }
    assert(d.take(n - start) =~= d);
    if neg {
        if mag == limit {
            Some(-0x7fff_ffff_ffff_ffff - 1)
        } else {
            Some(-(mag as i64))
        }
    } else {
        if mag == limit {
            None
        } else {
            Some(mag as i64)
        }
    }
}

// ---------------------------------------------------------------------------
// Identifiers
// ---------------------------------------------------------------------------
pub open spec fn is_ident_start(c: char) -> bool {
    ('a' <= c && c <= 'z') || ('A' <= c && c <= 'Z') || c == '_'
}

pub open spec fn is_ident_char(c: char) -> bool {
    is_ident_start(c) || is_digit(c)
}

/// An ASCII identifier: a letter or `_`, then letters, digits or `_`.
pub open spec fn is_identifier(t: Seq<char>) -> bool {
    t.len() > 0 && is_ident_start(t[0]) && forall|i: int| 0 <= i < t.len() ==> is_ident_char(
        #[trigger] t[i],
    )
}

pub fn ident_char(c: char) -> (r: bool)
    ensures
        r == is_ident_char(c),
{
    ('a' <= c && c <= 'z') || ('A' <= c && c <= 'Z') || c == '_' || ('0' <= c && c <= '9')
}

/// Whether `t` is an identifier.
pub fn check_identifier(t: &[char]) -> (r: bool)
    ensures
        r == is_identifier(t@),
{
    let n = t.len();
    if n == 0 {
        return false;
    }
    let c = t[0];
    if !(('a' <= c && c <= 'z') || ('A' <= c && c <= 'Z') || c == '_') {
        return false;
    }
    let mut k: usize = 0;
    while k < n
        invariant
            n == t@.len(),
            k <= n,
            forall|i: int| 0 <= i < k ==> is_ident_char(#[trigger] t@[i]),
        decreases n - k,
    {
        if !ident_char(t[k]) {
            return false;
        }
        k = k + 1;
    }
    true
}

// ---------------------------------------------------------------------------
// Decimal formatting
// ---------------------------------------------------------------------------
pub open spec fn digit_char(d: int) -> char {
    (d + 48) as char
}

/// The decimal digits of `n`, without leading zeros (`"0"` for zero).
pub open spec fn decimal_digits(n: nat) -> Seq<char>
    decreases n,
{
    if n < 10 {
        seq![digit_char(n as int)]
    } else {
        decimal_digits(n / 10).push(digit_char((n % 10) as int))
    }
}

/// The decimal text of `i`, with a leading `-` when it is negative.
pub open spec fn decimal(i: int) -> Seq<char> {
    if i < 0 {
        seq!['-'] + decimal_digits((-i) as nat)
    } else {
        decimal_digits(i as nat)
    }
}

/// `itoa::Buffer::format`: the decimal text of an integer.
#[verifier::external_body]
pub(crate) fn decimal_text(i: i128) -> (r: String)
    ensures
        r@ == decimal(i as int),
{
    let mut buf = itoa::Buffer::new();
    String::from(buf.format(i))
}

/// ASCII lower case.
pub open spec fn lower(c: char) -> char {
    if 'A' <= c && c <= 'Z' {
        ((c as u32) + 32) as char
    } else {
        c
    }
}

/// `t`, case-folded, equals `w` (which is lower case).
pub open spec fn eq_ignore_case(t: Seq<char>, w: Seq<char>) -> bool {
    t.len() == w.len() && forall|i: int| 0 <= i < t.len() ==> lower(#[trigger] t[i]) == w[i]
}

/// The position of the first `'e'` or `'E'` in `u` at or after `i`, or its length.
pub open spec fn exp_mark(u: Seq<char>, i: int) -> int
    decreases u.len() - i,
{
    if i < 0 || i >= u.len() {
        if i < 0 { 0 } else { u.len() as int }
    } else if u[i] == 'e' || u[i] == 'E' {
        i
    } else {
        exp_mark(u, i + 1)
    }
}

/// `Digit+ | Digit+ '.' Digit* | Digit* '.' Digit+`.
pub open spec fn mantissa_syntax(m: Seq<char>) -> bool {
    ||| (m.len() > 0 && all_digits(m))
    ||| exists|p: int|
        0 <= p < m.len() && #[trigger] m[p] == '.' && all_digits(m.take(p)) && all_digits(
            m.skip(p + 1),
        ) && m.len() >= 2
}

/// `f64::from_str` accepts `t`: an optional sign, then `inf`, `infinity` or
/// `nan` (in any case), or a decimal number with an optional exponent.
pub open spec fn float_syntax(t: Seq<char>) -> bool {
    let u = if t.len() > 0 && (t[0] == '+' || t[0] == '-') {
        t.skip(1)
    } else {
        t
    };
    ||| eq_ignore_case(u, seq!['i', 'n', 'f'])
    ||| eq_ignore_case(u, seq!['i', 'n', 'f', 'i', 'n', 'i', 't', 'y'])
    ||| eq_ignore_case(u, seq!['n', 'a', 'n'])
    ||| {
        let e = exp_mark(u, 0);
        &&& mantissa_syntax(u.take(e))
        &&& (e == u.len() || {
            let x = u.skip(e + 1);
            let xd = if x.len() > 0 && (x[0] == '+' || x[0] == '-') {
                x.skip(1)
            } else {
                x
            };
            xd.len() > 0 && all_digits(xd)
        })
    }
}

fn lower_exec(c: char) -> (r: char)
    ensures
        r == lower(c),
{
    if 'A' <= c && c <= 'Z' {
        let b = c as u8;
        assert(b as u32 == c as u32);
        (b + 32) as char
    } else {
        c
    }
}

/// Whether `t[a..]`, case-folded, equals `w`.
fn tail_eq_ignore_case(t: &[char], a: usize, w: &[char]) -> (r: bool)
    requires
        a <= t@.len(),
    ensures
        r == eq_ignore_case(t@.skip(a as int), w@),
{
    let n = t.len();
    if n - a != w.len() {
        return false;
    }
    let mut k: usize = 0;
    while k < w.len()
        invariant
            n == t@.len(),
            a <= n,
            n - a == w@.len(),
            k <= w@.len(),
            forall|i: int| 0 <= i < k ==> lower(#[trigger] t@.skip(a as int)[i]) == w@[i],
        decreases w@.len() - k,
    {
        if lower_exec(t[a + k]) != w[k] {
            assert(t@.skip(a as int)[k as int] == t@[a + k]);
            return false;
        }
        assert(t@.skip(a as int)[k as int] == t@[a + k]);
        k = k + 1;
    }
    true
}

/// Whether `t[a..b]` holds only decimal digits.
fn digits_between(t: &[char], a: usize, b: usize) -> (r: bool)
    requires
        a <= b <= t@.len(),
    ensures
        r == all_digits(t@.subrange(a as int, b as int)),
{
    let mut k = a;
    while k < b
        invariant
            a <= k <= b <= t@.len(),
            forall|i: int| a <= i < k ==> is_digit(#[trigger] t@[i]),
        decreases b - k,
    {
        if !('0' <= t[k] && t[k] <= '9') {
            assert(t@.subrange(a as int, b as int)[k - a] == t@[k as int]);
            return false;
        }
        k = k + 1;
    }
    assert forall|i: int| 0 <= i < t@.subrange(a as int, b as int).len() implies is_digit(
        #[trigger] t@.subrange(a as int, b as int)[i],
    ) by {
        assert(t@.subrange(a as int, b as int)[i] == t@[a + i]);
    }
    true
}

/// Whether `f64::from_str` would accept `t` (the syntax only; nothing is decoded).
pub fn is_float_syntax(t: &[char]) -> (r: bool)
    ensures
        r == float_syntax(t@),
{
    let n = t.len();
    let a: usize = if n > 0 && (t[0] == '+' || t[0] == '-') {
        1
    } else {
        0
    };
    let ghost u = t@.skip(a as int);
    assert(a == 0 ==> u =~= t@);
    let inf = vec!['i', 'n', 'f'];
    let infinity = vec!['i', 'n', 'f', 'i', 'n', 'i', 't', 'y'];
    let nan = vec!['n', 'a', 'n'];
    assert(inf@ =~= seq!['i', 'n', 'f']);
    assert(infinity@ =~= seq!['i', 'n', 'f', 'i', 'n', 'i', 't', 'y']);
    assert(nan@ =~= seq!['n', 'a', 'n']);
    if tail_eq_ignore_case(t, a, inf.as_slice()) || tail_eq_ignore_case(t, a, infinity.as_slice())
        || tail_eq_ignore_case(t, a, nan.as_slice()) {
        return true;
    }
    // Find the exponent mark.

    let mut e = a;
    while e < n && t[e] != 'e' && t[e] != 'E'
        invariant
            n == t@.len(),
            a <= e <= n,
            u == t@.skip(a as int),
            exp_mark(u, 0) == exp_mark(u, e - a),
        decreases n - e,
    {
        assert(u[e - a] == t@[e as int]);
        e = e + 1;
    }
    proof {
        if e < n {
            assert(u[e - a] == t@[e as int]);
        }
    }
    assert(exp_mark(u, e - a) == e - a);
    let ghost m = u.take(e - a);
    assert(m =~= t@.subrange(a as int, e as int));
    let mv = slice_of(t, a, e);
    let mant = mantissa_ok(mv.as_slice());
    if !mant {
        return false;
    }
    if e == n {
        return true;
    }
    // Exponent: an optional sign, then at least one digit.
    let x0 = e + 1;
    let ghost x = u.skip(e - a + 1);
    assert(x =~= t@.skip(x0 as int));
    let xs: usize = if x0 < n && (t[x0] == '+' || t[x0] == '-') {
        x0 + 1
    } else {
        x0
    };
    assert(xs == x0 ==> t@.subrange(xs as int, n as int) =~= x);
    assert(xs > x0 ==> t@.subrange(xs as int, n as int) =~= x.skip(1));
    xs < n && digits_between(t, xs, n)
}

/// `Digit+ | Digit+ '.' Digit* | Digit* '.' Digit+`.
fn mantissa_ok(m: &[char]) -> (r: bool)
    ensures
        r == mantissa_syntax(m@),
{
    let n = m.len();
    proof {
        lemma_find_char_from(m@, '.', 0);
    }
    match find_char_at(m, '.', 0) {
        None => {
            let r = n > 0 && digits_between(m, 0, n);
            assert(m@.subrange(0, n as int) =~= m@);
            proof {
                if !r && mantissa_syntax(m@) {
                    let p = choose|p: int|
                        0 <= p < m@.len() && #[trigger] m@[p] == '.' && all_digits(m@.take(p))
                            && all_digits(m@.skip(p + 1)) && m@.len() >= 2;
                    assert(m@[p] != '.');
                }
            }
            r
        },
        Some(p) => {
            let r = n >= 2 && digits_between(m, 0, p) && digits_between(m, p + 1, n);
            assert(m@.subrange(0, p as int) =~= m@.take(p as int));
            assert(m@.subrange(p + 1, n as int) =~= m@.skip(p + 1));
            proof {
                if !all_digits(m@) {
                } else {
                    assert(!is_digit(m@[p as int]));
                }
                if !r && mantissa_syntax(m@) {
                    let q = choose|q: int|
                        0 <= q < m@.len() && #[trigger] m@[q] == '.' && all_digits(m@.take(q))
                            && all_digits(m@.skip(q + 1)) && m@.len() >= 2;
                    if q < p {
                        assert(m@[q] != '.');
                    } else if q > p {
                        assert(m@.take(q)[p as int] == '.');
                        assert(!is_digit(m@.take(q)[p as int]));
                    }
                }
            }
            r
        },
    }
}

} // verus!
