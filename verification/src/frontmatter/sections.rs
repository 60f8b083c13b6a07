//! The `types:` and `imports:` sections, and `{{ consts.NAME }}`
//! interpolation in import paths.
use vstd::prelude::*;

use super::decls::value_views;
use super::lists::{decl_parts, list_items, parse_list_items, split_decl};
use super::params::{parse_type, parse_type_chars};
use super::{Import, ImportedNamespace};
use crate::error::{Fault, TemplateError};
use crate::literals::{quoted_inner, strip_quotes};
use crate::numeric::{check_identifier, is_identifier};
use crate::text::{
    find, find_at, find_from, has_prefix, lemma_find_from, occurs_at, slice_of, starts_with,
    string_of, trim, trimmed, views,
};
use crate::types::{type_map_contents, type_views, TypeMap, TypeV};
use crate::value::{Value, ValueMap, ValueV};

verus! {

// ---------------------------------------------------------------------------
// types:
// ---------------------------------------------------------------------------
/// The aliases that `items` from `k` on define, added to `acc`; each alias
/// may use the aliases defined before it.
pub open spec fn aliases_from(items: Seq<Seq<char>>, k: int, acc: Map<Seq<char>, TypeV>) -> Result<
    Map<Seq<char>, TypeV>,
    Fault,
>
    decreases items.len() - k,
{
    if k < 0 || k >= items.len() {
        Ok(acc)
    } else {
        match decl_parts(items[k]) {
            Err(e) => Err(e),
            Ok((name, tt, d)) => match d {
                Some(text) => Err(Fault::InvalidDefault { name, text }),
                None => match parse_type(tt, acc, Map::empty()) {
                    Err(e) => Err(e),
                    Ok(tv) => aliases_from(items, k + 1, acc.insert(name, tv)),
                },
            },
        }
    }
}

/// The aliases that the `types:` section text `rest` defines.
pub open spec fn type_aliases_of(rest: Seq<char>) -> Result<Map<Seq<char>, TypeV>, Fault> {
    match list_items(rest) {
        Err(e) => Err(e),
        Ok(items) => aliases_from(items, 0, Map::empty()),
    }
}

/// The aliases that the `types:` section text `rest` defines.
pub fn parse_types_value(rest: &[char]) -> (r: Result<TypeMap, TemplateError>)
    ensures
        match r {
            Ok(m) => type_aliases_of(rest@) == Ok::<Map<Seq<char>, TypeV>, Fault>(type_views(m@)),
            Err(e) => type_aliases_of(rest@) == Err::<Map<Seq<char>, TypeV>, Fault>(e@),
        },
{
    let items = match parse_list_items(rest) {
        Ok(items) => items,
        Err(e) => {
            return Err(e);
        },
    };
    let ghost I = views(items@);
    let no_imports: Vec<(String, ImportedNamespace)> = Vec::new();
    assert(super::params::import_types(no_imports@) == Map::<Seq<char>, Map<Seq<char>, TypeV>>::empty());
    let mut acc = TypeMap::new();
    assert(type_views(acc@) =~= Map::<Seq<char>, TypeV>::empty());
    let mut k: usize = 0;
    while k < items.len()
        invariant
            k <= items@.len(),
            I == views(items@),
            type_aliases_of(rest@) == aliases_from(I, 0, Map::empty()),
            aliases_from(I, 0, Map::empty()) == aliases_from(I, k as int, type_views(acc@)),
            super::params::import_types(no_imports@) == Map::<Seq<char>, Map<Seq<char>, TypeV>>::empty(),
        decreases items@.len() - k,
    {
        assert(I[k as int] == items@[k as int]@);
        let (name, tt, d) = match split_decl(items[k].as_slice()) {
            Ok(parts) => parts,
            Err(e) => {
                return Err(e);
            },
        };
        match d {
            Some(text) => {
                return Err(
                    TemplateError::InvalidDefault {
                        name: string_of(name.as_slice()),
                        text: string_of(text.as_slice()),
                    },
                );
            },
            None => {},
        }
        let tv = match parse_type_chars(tt.as_slice(), &acc, &no_imports) {
            Ok(t) => t,
            Err(e) => {
                return Err(e);
            },
        };
        let ghost before = type_views(acc@);
        let ghost tvv = tv@;
        acc.insert(string_of(name.as_slice()), tv);
        assert(type_views(acc@) =~= before.insert(name@, tvv));
        k = k + 1;
    }
    Ok(acc)
}

// ---------------------------------------------------------------------------
// imports:
// ---------------------------------------------------------------------------
/// An import entry `[stem](path)`, optionally quoted: its stem and path.
pub open spec fn import_parts(item: Seq<char>) -> Result<(Seq<char>, Seq<char>), Fault> {
    let t = match quoted_inner(item) {
        Some(x) => trim(x),
        None => item,
    };
    if t.len() >= 4 && t[0] == '[' && t.last() == ')' {
        match find(t, seq![']', '(']) {
            Some(p) => if 1 <= p && p + 2 <= t.len() - 1 && is_identifier(t.subrange(1, p)) {
                Ok((t.subrange(1, p), t.subrange(p + 2, t.len() - 1)))
            } else {
                Err(Fault::InvalidImport(item))
            },
            None => Err(Fault::InvalidImport(item)),
        }
    } else {
        Err(Fault::InvalidImport(item))
    }
}

/// The imports that `items` from `k` on declare.
pub open spec fn imports_from(items: Seq<Seq<char>>, k: int) -> Result<Seq<(Seq<char>, Seq<char>)>, Fault>
    decreases items.len() - k,
{
    if k < 0 || k >= items.len() {
        Ok(Seq::empty())
    } else {
        match import_parts(items[k]) {
            Err(e) => Err(e),
            Ok(p) => match imports_from(items, k + 1) {
                Err(e) => Err(e),
                Ok(rest) => Ok(seq![p] + rest),
            },
        }
    }
}

/// The imports that the `imports:` section text `rest` declares.
pub open spec fn imports_of(rest: Seq<char>) -> Result<Seq<(Seq<char>, Seq<char>)>, Fault> {
    match list_items(rest) {
        Err(e) => Err(e),
        Ok(items) => imports_from(items, 0),
    }
}

pub open spec fn import_view(i: Import) -> (Seq<char>, Seq<char>) {
    (i.stem@, i.path@)
}

pub open spec fn imports_view(is: Seq<Import>) -> Seq<(Seq<char>, Seq<char>)> {
    is.map_values(|i: Import| import_view(i))
}

/// The stem and path of one import entry.
fn parse_import(item: &[char]) -> (r: Result<Import, TemplateError>)
    ensures
        match r {
            Ok(i) => import_parts(item@) == Ok::<(Seq<char>, Seq<char>), Fault>(import_view(i)),
            Err(e) => import_parts(item@) == Err::<(Seq<char>, Seq<char>), Fault>(e@),
        },
{
    let t = match strip_quotes(item) {
        Some(x) => trimmed(x.as_slice()),
        None => slice_of(item, 0, item.len()),
    };
    assert(item@.subrange(0, item@.len() as int) =~= item@);
    let n = t.len();
    if n >= 4 && t[0] == '[' && t[n - 1] == ')' {
        let sep = vec![']', '('];
        assert(sep@ =~= seq![']', '(']);
        match find_at(t.as_slice(), sep.as_slice(), 0) {
            Some(p) => {
                proof {
                    lemma_find_from(t@, seq![']', '('], 0);
                }
                if 1 <= p && p + 2 <= n - 1 {
                    let stem = slice_of(t.as_slice(), 1, p);
                    if check_identifier(stem.as_slice()) {
                        let path = slice_of(t.as_slice(), p + 2, n - 1);
                        return Ok(
                            Import {
                                stem: string_of(stem.as_slice()),
                                path: string_of(path.as_slice()),
                            },
                        );
                    }
                }
                Err(TemplateError::InvalidImport(string_of(item)))
            },
            None => Err(TemplateError::InvalidImport(string_of(item))),
        }
    } else {
        Err(TemplateError::InvalidImport(string_of(item)))
    }
}

/// The imports that the `imports:` section text `rest` declares.
pub fn parse_imports_value(rest: &[char]) -> (r: Result<Vec<Import>, TemplateError>)
    ensures
        match r {
            Ok(is) => imports_of(rest@) == Ok::<Seq<(Seq<char>, Seq<char>)>, Fault>(
                imports_view(is@),
            ),
            Err(e) => imports_of(rest@) == Err::<Seq<(Seq<char>, Seq<char>)>, Fault>(e@),
        },
{
    let items = match parse_list_items(rest) {
        Ok(items) => items,
        Err(e) => {
            return Err(e);
        },
    };
    let ghost I = views(items@);
    let mut out: Vec<Import> = Vec::new();
    let mut k: usize = 0;
    while k < items.len()
        invariant
            k <= items@.len(),
            I == views(items@),
            imports_of(rest@) == imports_from(I, 0),
            imports_from(I, 0) == match imports_from(I, k as int) {
                Ok(x) => Ok(imports_view(out@) + x),
                Err(e) => Err(e),
            },
        decreases items@.len() - k,
    {
        assert(I[k as int] == items@[k as int]@);
        let imp = match parse_import(items[k].as_slice()) {
            Ok(i) => i,
            Err(e) => {
                return Err(e);
            },
        };
        let ghost before = imports_view(out@);
        let ghost iv = import_view(imp);
        out.push(imp);
        assert(imports_view(out@) =~= before.push(iv));
        proof {
            match imports_from(I, k + 1) {
                Ok(x) => {
                    assert(before + (seq![iv] + x) =~= imports_view(out@) + x);
                },
                Err(_) => {},
            }
        }
        k = k + 1;
    }
    assert(imports_view(out@) + Seq::<(Seq<char>, Seq<char>)>::empty() =~= imports_view(out@));
    Ok(out)
}

// ---------------------------------------------------------------------------
// Interpolation
// ---------------------------------------------------------------------------
pub open spec fn expr_open() -> Seq<char> {
    seq!['{', '{']
}

pub open spec fn expr_close() -> Seq<char> {
    seq!['}', '}']
}

pub open spec fn consts_prefix() -> Seq<char> {
    seq!['c', 'o', 'n', 's', 't', 's', '.']
}

/// The constant that `{{ expr }}` names: the trimmed expression, without a
/// leading `consts.`.
pub open spec fn const_ref(expr: Seq<char>) -> Seq<char> {
    let e = trim(expr);
    if starts_with(e, consts_prefix()) {
        trim(e.skip(7))
    } else {
        e
    }
}

/// `s` from `i` on with every `{{ expr }}` replaced by the string constant
/// it names; text after an unclosed `{{` stays as it is.
pub open spec fn interpolate_from(s: Seq<char>, i: int, consts: Map<Seq<char>, ValueV>) -> Result<
    Seq<char>,
    Fault,
>
    decreases s.len() - i,
{
    if i < 0 || i > s.len() {
        Ok(Seq::empty())
    } else {
        match find_from(s, expr_open(), i) {
            None => Ok(s.subrange(i, s.len() as int)),
            Some(a) => match find_from(s, expr_close(), a + 2) {
                None => Ok(s.subrange(i, s.len() as int)),
                Some(b) => if i <= a && a + 2 <= b && b + 2 <= s.len() {
                    let name = const_ref(s.subrange(a + 2, b));
                    if consts.contains_key(name) && consts[name] is Str {
                        match interpolate_from(s, b + 2, consts) {
                            Ok(rest) => Ok(s.subrange(i, a) + consts[name]->Str_0 + rest),
                            Err(e) => Err(e),
                        }
                    } else {
                        Err(Fault::UnresolvableExpression(trim(s.subrange(a + 2, b))))
                    }
                } else {
                    Ok(s.subrange(i, s.len() as int))
                },
            },
        }
    }
}

/// Appends the characters of `src` from `a` up to `b` to `dst`.
fn append_range(dst: &mut Vec<char>, src: &[char], a: usize, b: usize)
    requires
        a <= b <= src@.len(),
    ensures
        final(dst)@ == old(dst)@ + src@.subrange(a as int, b as int),
{
    let mut k = a;
    while k < b
        invariant
            a <= k <= b <= src@.len(),
            dst@ == old(dst)@ + src@.subrange(a as int, k as int),
        decreases b - k,
    {
        dst.push(src[k]);
        assert(src@.subrange(a as int, k + 1) =~= src@.subrange(a as int, k as int).push(src@[k as int]));
        k = k + 1;
    }
}

/// `s` with every `{{ expr }}` replaced by the string constant it names.
pub fn interpolate(s: &[char], consts: &ValueMap) -> (r: Result<Vec<char>, TemplateError>)
    ensures
        match r {
            Ok(x) => interpolate_from(s@, 0, value_views(consts@)) == Ok::<Seq<char>, Fault>(x@),
            Err(e) => interpolate_from(s@, 0, value_views(consts@)) == Err::<Seq<char>, Fault>(e@),
        },
{
    let ghost C = value_views(consts@);
    let n = s.len();
    let open = vec!['{', '{'];
    let close = vec!['}', '}'];
    let pre = vec!['c', 'o', 'n', 's', 't', 's', '.'];
    assert(open@ =~= expr_open());
    assert(close@ =~= expr_close());
    assert(pre@ =~= consts_prefix());
    let mut out: Vec<char> = Vec::new();
    let mut i: usize = 0;
    loop
        invariant
            n == s@.len(),
            i <= n,
            open@ == expr_open(),
            close@ == expr_close(),
            pre@ == consts_prefix(),
            C == value_views(consts@),
            interpolate_from(s@, 0, C) == match interpolate_from(s@, i as int, C) {
                Ok(x) => Ok(out@ + x),
                Err(e) => Err(e),
            },
        decreases n - i,
    {
        proof {
            lemma_find_from(s@, expr_open(), i as int);
        }
        match find_at(s, open.as_slice(), i) {
            None => {
                append_range(&mut out, s, i, n);
                return Ok(out);
            },
            Some(a) => {
                proof {
                    lemma_find_from(s@, expr_close(), a + 2);
                }
                match find_at(s, close.as_slice(), a + 2) {
                    None => {
                        append_range(&mut out, s, i, n);
                        return Ok(out);
                    },
                    Some(b) => {
                        let raw = slice_of(s, a + 2, b);
                        let e = trimmed(raw.as_slice());
                        let name = if has_prefix(e.as_slice(), pre.as_slice()) {
                            let tail = slice_of(e.as_slice(), 7, e.len());
                            assert(tail@ =~= e@.skip(7));
                            trimmed(tail.as_slice())
                        } else {
                            e
                        };
                        let key = string_of(name.as_slice());
                        let ghost before = out@;
                        match consts.get(key.as_str()) {
                            Some(Value::Str(v)) => {
                                append_range(&mut out, s, i, a);
                                let vc = crate::text::chars_of(v.as_str());
                                let vn = vc.len();
                                append_range(&mut out, vc.as_slice(), 0, vn);
                                assert(vc@.subrange(0, vn as int) =~= vc@);
                                proof {
                                    match interpolate_from(s@, b + 2, C) {
                                        Ok(x) => {
                                            assert(before + (s@.subrange(i as int, a as int) + v@ + x)
                                                =~= out@ + x);
                                        },
                                        Err(_) => {},
                                    }
                                }
                                i = b + 2;
                            },
                            _ => {
                                return Err(
                                    TemplateError::UnresolvableExpression(
                                        string_of(trimmed(raw.as_slice()).as_slice()),
                                    ),
                                );
                            },
                        }
                    },
                }
            },
        }
    }
}

} // verus!
