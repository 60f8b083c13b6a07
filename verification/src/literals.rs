//! Literal values written in template source: quoted strings, booleans,
//! integers and floats.
use vstd::prelude::*;

use crate::numeric::{float_syntax, int_literal, is_float_syntax, parse_int};
use crate::text::{chars_of, same_chars, slice_of, string_of, trim, trimmed};
use crate::value::{Value, ValueV};

verus! {

pub open spec fn kw_true() -> Seq<char> {
    seq!['t', 'r', 'u', 'e']
}

pub open spec fn kw_false() -> Seq<char> {
    seq!['f', 'a', 'l', 's', 'e']
}

/// The text between matching quotes (`"..."` or `'...'`) around `t`.
pub open spec fn quoted_inner(t: Seq<char>) -> Option<Seq<char>> {
    if t.len() >= 2 && (t[0] == '"' || t[0] == '\'') && t.last() == t[0] {
        Some(t.subrange(1, t.len() - 1))
    } else {
        None
    }
}

/// The value that literal text denotes, if it is a literal: a quoted
/// string, `true`, `false`, an `i64`, or a float.
pub open spec fn literal(t: Seq<char>) -> Option<ValueV> {
    if t.len() == 0 {
        None
    } else {
        match quoted_inner(t) {
            Some(x) => Some(ValueV::Str(x)),
            None => if t == kw_true() {
                Some(ValueV::Bool(true))
            } else if t == kw_false() {
                Some(ValueV::Bool(false))
            } else {
                match int_literal(t) {
                    Some(n) => Some(ValueV::Int(n)),
                    None => if float_syntax(t) {
                        Some(ValueV::FloatText(t))
                    } else {
                        None
                    },
                }
            },
        }
    }
}

/// The text between matching quotes around `t`, if `t` is quoted.
pub fn strip_quotes(t: &[char]) -> (r: Option<Vec<char>>)
    ensures
        match r {
            Some(x) => quoted_inner(t@) == Some(x@),
            None => quoted_inner(t@) is None,
        },
{
    let n = t.len();
    if n >= 2 && (t[0] == '"' || t[0] == '\'') && t[n - 1] == t[0] {
        Some(slice_of(t, 1, n - 1))
    } else {
        None
    }
}

/// The value that literal text `t` denotes.
pub fn literal_value(t: &[char]) -> (r: Option<Value>)
    ensures
        match r {
            Some(v) => literal(t@) == Some(v@),
            None => literal(t@) is None,
        },
{
    if t.len() == 0 {
        return None;
    }
    match strip_quotes(t) {
        Some(x) => {
            return Some(Value::Str(string_of(x.as_slice())));
        },
        None => {},
    }
    let kt = vec!['t', 'r', 'u', 'e'];
    let kf = vec!['f', 'a', 'l', 's', 'e'];
    assert(kt@ =~= kw_true());
    assert(kf@ =~= kw_false());
    if same_chars(t, kt.as_slice()) {
        return Some(Value::Bool(true));
    }
    if same_chars(t, kf.as_slice()) {
        return Some(Value::Bool(false));
    }
    match parse_int(t) {
        Some(n) => Some(Value::Int(n)),
        None => if is_float_syntax(t) {
            Some(Value::FloatText(string_of(t)))
        } else {
            None
        },
    }
}

/// The value a default written as `s` denotes, if `s` (trimmed) is a
/// literal.
pub fn parse_default_value(s: &str) -> (r: Option<Value>)
    ensures
        match r {
            Some(v) => literal(trim(s@)) == Some(v@),
            None => literal(trim(s@)) is None,
        },
{
    let cs = chars_of(s);
    let t = trimmed(cs.as_slice());
    literal_value(t.as_slice())
}

} // verus!
