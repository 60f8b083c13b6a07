//! Type annotations and declarations: `name = type := default`.
use vstd::prelude::*;

use super::ImportedNamespace;
use crate::error::{Fault, TemplateError};
use crate::numeric::{check_identifier, is_identifier};
use crate::scan::{find_top, lemma_scan, lemma_split_from, scan, split_top, top_split};
use crate::text::{
    find_char_at, find_char_from, lemma_find_char_from, lemma_trim_len, same_chars, slice_of,
    string_of, trim, trimmed, views,
};
use crate::types::{
    fields_view, type_map_contents, type_views, variants_view, EnumVariant, FieldDecl, FieldV,
    TypeMap, TypeV, VarType, VariantV,
};

verus! {

pub open spec fn kw_str() -> Seq<char> {
    seq!['s', 't', 'r']
}

pub open spec fn kw_int() -> Seq<char> {
    seq!['i', 'n', 't']
}

pub open spec fn kw_float() -> Seq<char> {
    seq!['f', 'l', 'o', 'a', 't']
}

pub open spec fn kw_bool() -> Seq<char> {
    seq!['b', 'o', 'o', 'l']
}

pub open spec fn kw_list() -> Seq<char> {
    seq!['l', 'i', 's', 't']
}

pub open spec fn kw_struct() -> Seq<char> {
    seq!['s', 't', 'r', 'u', 'c', 't']
}

pub open spec fn kw_enum() -> Seq<char> {
    seq!['e', 'n', 'u', 'm']
}

pub open spec fn kw_option() -> Seq<char> {
    seq!['o', 'p', 't', 'i', 'o', 'n']
}

pub open spec fn comma() -> Seq<char> {
    seq![',']
}

pub open spec fn equals() -> Seq<char> {
    seq!['=']
}

/// Type aliases that imported templates export, by import stem.
pub open spec fn import_types(rs: Seq<(String, ImportedNamespace)>) -> Map<
    Seq<char>,
    Map<Seq<char>, TypeV>,
>
    decreases rs.len(),
{
    if rs.len() == 0 {
        Map::empty()
    } else {
        import_types(rs.drop_last()).insert(
            rs.last().0@,
            type_views(type_map_contents(rs.last().1.type_aliases)),
        )
    }
}

/// `head(inner)`: the trimmed text before the first `(` and the text between
/// it and the final `)`.
pub open spec fn compound_parts(t: Seq<char>) -> Option<(Seq<char>, Seq<char>)> {
    if t.len() >= 2 && t.last() == ')' {
        match find_char_from(t, '(', 0) {
            Some(o) => if 0 <= o < t.len() - 1 {
                Some((trim(t.take(o)), t.subrange(o + 1, t.len() - 1)))
            } else {
                None
            },
            None => None,
        }
    } else {
        None
    }
}

/// `stem.Name`: the text before the first `.` and after it.
pub open spec fn dotted(t: Seq<char>) -> Option<(Seq<char>, Seq<char>)> {
    match find_char_from(t, '.', 0) {
        Some(d) => if 0 <= d < t.len() {
            Some((t.take(d), t.skip(d + 1)))
        } else {
            None
        },
        None => None,
    }
}

/// The type that annotation `s` denotes, given the type aliases in scope
/// and the aliases that imports export.
pub open spec fn parse_type(
    s: Seq<char>,
    al: Map<Seq<char>, TypeV>,
    im: Map<Seq<char>, Map<Seq<char>, TypeV>>,
) -> Result<TypeV, Fault>
    decreases s.len(), 0int, 0int,
{
    let t = trim(s);
    if t == kw_str() {
        Ok(TypeV::Str)
    } else if t == kw_int() {
        Ok(TypeV::Int)
    } else if t == kw_float() {
        Ok(TypeV::Float)
    } else if t == kw_bool() {
        Ok(TypeV::Bool)
    } else {
        match compound_parts(t) {
            Some((head, inner)) => {
                if inner.len() < s.len() {
                    if head == kw_list() {
                        if scan(inner, equals(), 0, 0, true) is Some {
                            match fields_of(inner, al, im) {
                                Ok(fs) => Ok(TypeV::List(fs)),
                                Err(e) => Err(e),
                            }
                        } else {
                            match parse_type(inner, al, im) {
                                Ok(e) => Ok(TypeV::ListOf(Box::new(e))),
                                Err(e) => Err(e),
                            }
                        }
                    } else if head == kw_struct() {
                        match fields_of(inner, al, im) {
                            Ok(fs) => Ok(TypeV::Struct(fs)),
                            Err(e) => Err(e),
                        }
                    } else if head == kw_enum() {
                        match variants_of(inner, al, im) {
                            Ok(vs) => Ok(TypeV::Enum(vs)),
                            Err(e) => Err(e),
                        }
                    } else if head == kw_option() {
                        match parse_type(inner, al, im) {
                            Ok(e) => Ok(TypeV::Optional(Box::new(e))),
                            Err(e) => Err(e),
                        }
                    } else {
                        Err(Fault::UnknownType(t))
                    }
                } else {
                    Err(Fault::UnknownType(t))
                }
            },
            None => if al.contains_key(t) {
                Ok(al[t])
            } else {
                match dotted(t) {
                    Some((stem, name)) => if im.contains_key(stem) && im[stem].contains_key(name) {
                        Ok(im[stem][name])
                    } else {
                        Err(Fault::UnknownType(t))
                    },
                    None => Err(Fault::UnknownType(t)),
                }
            },
        }
    }
}

/// The fields `name = type, ...` that `s` lists.
pub open spec fn fields_of(
    s: Seq<char>,
    al: Map<Seq<char>, TypeV>,
    im: Map<Seq<char>, Map<Seq<char>, TypeV>>,
) -> Result<Seq<FieldV>, Fault>
    decreases s.len(), 2int, 0int,
{
    fields_in(top_split(s, comma(), true), 0, s.len() as int, al, im)
}

/// The fields that the pieces `ps` from `k` on declare (each piece at most
/// `bound` long).
pub open spec fn fields_in(
    ps: Seq<Seq<char>>,
    k: int,
    bound: int,
    al: Map<Seq<char>, TypeV>,
    im: Map<Seq<char>, Map<Seq<char>, TypeV>>,
) -> Result<Seq<FieldV>, Fault>
    decreases bound, 1int, ps.len() - k,
{
    if k < 0 || k >= ps.len() {
        Ok(Seq::empty())
    } else if ps[k].len() > bound {
        Err(Fault::Syntax(ps[k]))
    } else {
        let pt = trim(ps[k]);
        match scan(pt, equals(), 0, 0, true) {
            None => Err(Fault::MissingTypeAnnotation(pt)),
            Some(e) => if 0 <= e < pt.len() {
                let name = trim(pt.take(e));
                let ty = pt.skip(e + 1);
                if !is_identifier(name) {
                    Err(Fault::InvalidName(name))
                } else if ty.len() <= bound {
                    match parse_type(ty, al, im) {
                        Err(x) => Err(x),
                        Ok(tv) => match fields_in(ps, k + 1, bound, al, im) {
                            Err(x) => Err(x),
                            Ok(rest) => Ok(seq![FieldV { name, ty: tv }] + rest),
                        },
                    }
                } else {
                    Err(Fault::Syntax(ps[k]))
                }
            } else {
                Err(Fault::Syntax(ps[k]))
            },
        }
    }
}

/// The variants `Name, Name(fields), ...` that `s` lists.
pub open spec fn variants_of(
    s: Seq<char>,
    al: Map<Seq<char>, TypeV>,
    im: Map<Seq<char>, Map<Seq<char>, TypeV>>,
) -> Result<Seq<VariantV>, Fault>
    decreases s.len(), 2int, 0int,
{
    variants_in(top_split(s, comma(), true), 0, s.len() as int, al, im)
}

/// The variants that the pieces `ps` from `k` on declare.
pub open spec fn variants_in(
    ps: Seq<Seq<char>>,
    k: int,
    bound: int,
    al: Map<Seq<char>, TypeV>,
    im: Map<Seq<char>, Map<Seq<char>, TypeV>>,
) -> Result<Seq<VariantV>, Fault>
    decreases bound, 1int, ps.len() - k,
{
    if k < 0 || k >= ps.len() {
        Ok(Seq::empty())
    } else if ps[k].len() > bound {
        Err(Fault::Syntax(ps[k]))
    } else {
        let pt = trim(ps[k]);
        let head: Result<VariantV, Fault> = match compound_parts(pt) {
            Some((name, inner)) => if !is_identifier(name) {
                Err(Fault::InvalidName(name))
            } else if inner.len() < bound {
                match fields_of(inner, al, im) {
                    Ok(fs) => Ok(VariantV { name, fields: fs }),
                    Err(x) => Err(x),
                }
            } else {
                Err(Fault::Syntax(ps[k]))
            },
            None => if !is_identifier(pt) {
                Err(Fault::InvalidName(pt))
            } else {
                Ok(VariantV { name: pt, fields: Seq::empty() })
            },
        };
        match head {
            Err(x) => Err(x),
            Ok(v) => match variants_in(ps, k + 1, bound, al, im) {
                Err(x) => Err(x),
                Ok(rest) => Ok(seq![v] + rest),
            },
        }
    }
}

// ---------------------------------------------------------------------------
// Lemmas
// ---------------------------------------------------------------------------
pub proof fn lemma_compound_parts(t: Seq<char>)
    ensures
        compound_parts(t) matches Some((h, inner)) ==> inner.len() + 2 <= t.len(),
{
    lemma_find_char_from(t, '(', 0);
}

pub proof fn lemma_pieces_bounded(s: Seq<char>)
    ensures
        forall|k: int|
            0 <= k < top_split(s, comma(), true).len() ==> #[trigger] top_split(
                s,
                comma(),
                true,
            )[k].len() <= s.len(),
{
    lemma_split_from(s, comma(), 0, true);
}

// ---------------------------------------------------------------------------
// Executable parsing
// ---------------------------------------------------------------------------
/// Lookup of `stem.name` in the aliases that imports export; the last
/// import with that stem wins.
pub fn import_lookup(rs: &Vec<(String, ImportedNamespace)>, stem: &[char], name: &[char]) -> (r:
    Option<VarType>)
    ensures
        match r {
            Some(t) => import_types(rs@).contains_key(stem@) && import_types(rs@)[stem@].contains_key(
                name@,
            ) && t@ == import_types(rs@)[stem@][name@],
            None => !(import_types(rs@).contains_key(stem@) && import_types(rs@)[stem@].contains_key(
                name@,
            )),
        },
{
    let name_s = string_of(name);
    let mut k = rs.len();
    while k > 0
        invariant
            k <= rs@.len(),
            name_s@ == name@,
            forall|j: int| k <= j < rs@.len() ==> #[trigger] rs@[j].0@ != stem@,
        decreases k,
    {
        let j = k - 1;
        if same_chars(chars_of_string(&rs[j].0).as_slice(), stem) {
            proof {
                lemma_import_types_tail(rs@, k as int, stem@);
                assert(rs@.take(k as int).drop_last() =~= rs@.take(j as int));
                assert(rs@.take(k as int).last() == rs@[j as int]);
            }
            let ns = &rs[j].1;
            match ns.type_aliases.get(name_s.as_str()) {
                Some(t) => {
                    return Some(t.duplicate());
                },
                None => {
                    return None;
                },
            }
        }
        k = j;
    }
    proof {
        lemma_import_types_tail(rs@, 0, stem@);
        assert(rs@.take(0) =~= Seq::<(String, ImportedNamespace)>::empty());
    }
    None
}

/// Imports after position `k` that have another stem do not change what
/// `stem` maps to.
pub proof fn lemma_import_types_tail(rs: Seq<(String, ImportedNamespace)>, k: int, stem: Seq<char>)
    requires
        0 <= k <= rs.len(),
        forall|j: int| k <= j < rs.len() ==> #[trigger] rs[j].0@ != stem,
    ensures
        import_types(rs).contains_key(stem) == import_types(rs.take(k)).contains_key(stem),
        import_types(rs).contains_key(stem) ==> import_types(rs)[stem] == import_types(
            rs.take(k),
        )[stem],
    decreases rs.len(),
{
    if rs.len() == k {
        assert(rs.take(k) =~= rs);
    } else {
        let d = rs.drop_last();
        assert forall|j: int| k <= j < d.len() implies #[trigger] d[j].0@ != stem by {
            assert(d[j] == rs[j]);
        }
        lemma_import_types_tail(d, k, stem);
        assert(d.take(k) =~= rs.take(k));
        assert(rs[rs.len() - 1].0@ != stem);
    }
}


/// `acc` followed by the result's sequence, or the result's error.
pub open spec fn prepend<T>(acc: Seq<T>, r: Result<Seq<T>, Fault>) -> Result<Seq<T>, Fault> {
    match r {
        Ok(x) => Ok(acc + x),
        Err(e) => Err(e),
    }
}

fn compound(t: &[char]) -> (r: Option<(Vec<char>, Vec<char>)>)
    ensures
        match r {
            Some((h, i)) => compound_parts(t@) == Some((h@, i@)),
            None => compound_parts(t@) is None,
        },
{
    let n = t.len();
    if n >= 2 && t[n - 1] == ')' {
        proof {
            lemma_find_char_from(t@, '(', 0);
        }
        match find_char_at(t, '(', 0) {
            Some(o) => if o < n - 1 {
                let head_raw = slice_of(t, 0, o);
                assert(head_raw@ =~= t@.take(o as int));
                let head = trimmed(head_raw.as_slice());
                let inner = slice_of(t, o + 1, n - 1);
                Some((head, inner))
            } else {
                None
            },
            None => None,
        }
    } else {
        None
    }
}

/// The type that annotation `s` denotes.
pub fn parse_type_chars(s: &[char], al: &TypeMap, im: &Vec<(String, ImportedNamespace)>) -> (r:
    Result<VarType, TemplateError>)
    ensures
        match r {
            Ok(t) => parse_type(s@, type_views(al@), import_types(im@)) == Ok::<TypeV, Fault>(t@),
            Err(e) => parse_type(s@, type_views(al@), import_types(im@)) == Err::<TypeV, Fault>(
                e@,
            ),
        },
    decreases s@.len(), 0int, 0int,
{
    let ghost A = type_views(al@);
    let ghost I = import_types(im@);
    let t = trimmed(s);
    proof {
        lemma_trim_len(s@);
    }
    let k_str = vec!['s', 't', 'r'];
    let k_int = vec!['i', 'n', 't'];
    let k_float = vec!['f', 'l', 'o', 'a', 't'];
    let k_bool = vec!['b', 'o', 'o', 'l'];
    assert(k_str@ =~= kw_str());
    assert(k_int@ =~= kw_int());
    assert(k_float@ =~= kw_float());
    assert(k_bool@ =~= kw_bool());
    if same_chars(t.as_slice(), k_str.as_slice()) {
        return Ok(VarType::Str);
    }
    if same_chars(t.as_slice(), k_int.as_slice()) {
        return Ok(VarType::Int);
    }
    if same_chars(t.as_slice(), k_float.as_slice()) {
        return Ok(VarType::Float);
    }
    if same_chars(t.as_slice(), k_bool.as_slice()) {
        return Ok(VarType::Bool);
    }
    match compound(t.as_slice()) {
        Some((head, inner)) => {
            if inner.len() >= s.len() {
                return Err(TemplateError::UnknownType(string_of(t.as_slice())));
            }
            let k_list = vec!['l', 'i', 's', 't'];
            let k_struct = vec!['s', 't', 'r', 'u', 'c', 't'];
            let k_enum = vec!['e', 'n', 'u', 'm'];
            let k_option = vec!['o', 'p', 't', 'i', 'o', 'n'];
            assert(k_list@ =~= kw_list());
            assert(k_struct@ =~= kw_struct());
            assert(k_enum@ =~= kw_enum());
            assert(k_option@ =~= kw_option());
            if same_chars(head.as_slice(), k_list.as_slice()) {
                let eq = vec!['='];
                assert(eq@ =~= equals());
                if find_top(inner.as_slice(), eq.as_slice(), 0, true).is_some() {
                    match parse_fields(inner.as_slice(), al, im) {
                        Ok(fs) => Ok(VarType::List(fs)),
                        Err(e) => Err(e),
                    }
                } else {
                    match parse_type_chars(inner.as_slice(), al, im) {
                        Ok(e) => Ok(VarType::ListOf(Box::new(e))),
                        Err(e) => Err(e),
                    }
                }
            } else if same_chars(head.as_slice(), k_struct.as_slice()) {
                match parse_fields(inner.as_slice(), al, im) {
                    Ok(fs) => Ok(VarType::Struct(fs)),
                    Err(e) => Err(e),
                }
            } else if same_chars(head.as_slice(), k_enum.as_slice()) {
                match parse_variants(inner.as_slice(), al, im) {
                    Ok(vs) => Ok(VarType::Enum(vs)),
                    Err(e) => Err(e),
                }
            } else if same_chars(head.as_slice(), k_option.as_slice()) {
                match parse_type_chars(inner.as_slice(), al, im) {
                    Ok(e) => Ok(VarType::Optional(Box::new(e))),
                    Err(e) => Err(e),
                }
            } else {
                Err(TemplateError::UnknownType(string_of(t.as_slice())))
            }
        },
        None => {
            let key = string_of(t.as_slice());
            match al.get(key.as_str()) {
                Some(ty) => {
                    return Ok(ty.duplicate());
                },
                None => {},
            }
            proof {
                lemma_find_char_from(t@, '.', 0);
            }
            let tn = t.len();
            match find_char_at(t.as_slice(), '.', 0) {
                Some(d) => {
                    let stem = slice_of(t.as_slice(), 0, d);
                    let name = slice_of(t.as_slice(), d + 1, tn);
                    assert(stem@ =~= t@.take(d as int));
                    assert(name@ =~= t@.skip(d + 1));
                    match import_lookup(im, stem.as_slice(), name.as_slice()) {
                        Some(ty) => Ok(ty),
                        None => Err(TemplateError::UnknownType(key)),
                    }
                },
                None => Err(TemplateError::UnknownType(key)),
            }
        },
    }
}

/// The fields `name = type, ...` that `s` lists.
pub fn parse_fields(s: &[char], al: &TypeMap, im: &Vec<(String, ImportedNamespace)>) -> (r: Result<
    Vec<FieldDecl>,
    TemplateError,
>)
    ensures
        match r {
            Ok(fs) => fields_of(s@, type_views(al@), import_types(im@)) == Ok::<Seq<FieldV>, Fault>(
                fields_view(fs@),
            ),
            Err(e) => fields_of(s@, type_views(al@), import_types(im@)) == Err::<
                Seq<FieldV>,
                Fault,
            >(e@),
        },
    decreases s@.len(), 2int, 0int,
{
    let ghost A = type_views(al@);
    let ghost I = import_types(im@);
    let c = vec![','];
    assert(c@ =~= comma());
    let ps = split_top(s, c.as_slice(), true);
    let ghost P = views(ps@);
    let ghost bound = s@.len() as int;
    proof {
        lemma_pieces_bounded(s@);
    }
    let eq = vec!['='];
    assert(eq@ =~= equals());
    let mut out: Vec<FieldDecl> = Vec::new();
    let mut k: usize = 0;
    while k < ps.len()
        invariant
            k <= ps@.len(),
            P == views(ps@),
            P == top_split(s@, comma(), true),
            bound == s@.len(),
            eq@ == equals(),
            A == type_views(al@),
            I == import_types(im@),
            forall|m: int| 0 <= m < P.len() ==> #[trigger] P[m].len() <= bound,
            fields_in(P, 0, bound, A, I) == prepend(fields_view(out@), fields_in(P, k as int, bound, A, I)),
        decreases ps@.len() - k,
    {
        let piece = &ps[k];
        assert(piece@ == P[k as int]);
        let pt = trimmed(piece.as_slice());
        proof {
            lemma_trim_len(piece@);
            lemma_scan(pt@, equals(), 0, 0, true);
        }
        match find_top(pt.as_slice(), eq.as_slice(), 0, true) {
            None => {
                return Err(TemplateError::MissingTypeAnnotation(string_of(pt.as_slice())));
            },
            Some(e) => {
                assert(equals().len() == 1);
                let ptn = pt.len();
                assert(e + 1 <= ptn);
                let name_raw = slice_of(pt.as_slice(), 0, e);
                assert(name_raw@ =~= pt@.take(e as int));
                let name = trimmed(name_raw.as_slice());
                let ty = slice_of(pt.as_slice(), e + 1, ptn);
                assert(ty@ =~= pt@.skip(e + 1));
                if !check_identifier(name.as_slice()) {
                    return Err(TemplateError::InvalidName(string_of(name.as_slice())));
                }
                match parse_type_chars(ty.as_slice(), al, im) {
                    Err(x) => {
                        return Err(x);
                    },
                    Ok(tv) => {
                        let f = FieldDecl { name: string_of(name.as_slice()), var_type: tv };
                        let ghost before = out@;
                        out.push(f);
                        assert(out@.drop_last() =~= before);
                        proof {
                            let fv = FieldV { name: name@, ty: tv@ };
                            assert(fields_view(out@) == fields_view(before).push(fv));
                            match fields_in(P, k + 1, bound, A, I) {
                                Ok(rest) => {
                                    assert(fields_view(before) + (seq![fv] + rest) =~= fields_view(
                                        out@,
                                    ) + rest);
                                },
                                Err(_) => {},
                            }
                        }
                    },
                }
            },
        }
        k = k + 1;
    }
    assert(fields_view(out@) + Seq::<FieldV>::empty() =~= fields_view(out@));
    Ok(out)
}

/// The variants `Name, Name(fields), ...` that `s` lists.
pub fn parse_variants(s: &[char], al: &TypeMap, im: &Vec<(String, ImportedNamespace)>) -> (r:
    Result<Vec<EnumVariant>, TemplateError>)
    ensures
        match r {
            Ok(vs) => variants_of(s@, type_views(al@), import_types(im@)) == Ok::<
                Seq<VariantV>,
                Fault,
            >(variants_view(vs@)),
            Err(e) => variants_of(s@, type_views(al@), import_types(im@)) == Err::<
                Seq<VariantV>,
                Fault,
            >(e@),
        },
    decreases s@.len(), 2int, 0int,
{
    let ghost A = type_views(al@);
    let ghost I = import_types(im@);
    let c = vec![','];
    assert(c@ =~= comma());
    let ps = split_top(s, c.as_slice(), true);
    let ghost P = views(ps@);
    let ghost bound = s@.len() as int;
    proof {
        lemma_pieces_bounded(s@);
    }
    let mut out: Vec<EnumVariant> = Vec::new();
    let mut k: usize = 0;
    while k < ps.len()
        invariant
            k <= ps@.len(),
            P == views(ps@),
            P == top_split(s@, comma(), true),
            bound == s@.len(),
            A == type_views(al@),
            I == import_types(im@),
            forall|m: int| 0 <= m < P.len() ==> #[trigger] P[m].len() <= bound,
            variants_in(P, 0, bound, A, I) == prepend(variants_view(out@), variants_in(P, k as int, bound, A, I)),
        decreases ps@.len() - k,
    {
        let piece = &ps[k];
        assert(piece@ == P[k as int]);
        let pt = trimmed(piece.as_slice());
        proof {
            lemma_trim_len(piece@);
            lemma_compound_parts(pt@);
        }
        let v = match compound(pt.as_slice()) {
            Some((name, inner)) => {
                if !check_identifier(name.as_slice()) {
                    return Err(TemplateError::InvalidName(string_of(name.as_slice())));
                }
                match parse_fields(inner.as_slice(), al, im) {
                    Ok(fs) => EnumVariant { name: string_of(name.as_slice()), fields: fs },
                    Err(x) => {
                        return Err(x);
                    },
                }
            },
            None => {
                if !check_identifier(pt.as_slice()) {
                    return Err(TemplateError::InvalidName(string_of(pt.as_slice())));
                }
                let empty: Vec<FieldDecl> = Vec::new();
                assert(fields_view(empty@) =~= Seq::<FieldV>::empty());
                EnumVariant { name: string_of(pt.as_slice()), fields: empty }
            },
        };
        let ghost before = out@;
        out.push(v);
        assert(out@.drop_last() =~= before);
        proof {
            let vv = VariantV { name: v.name@, fields: fields_view(v.fields@) };
            assert(variants_view(out@) == variants_view(before).push(vv));
            match variants_in(P, k + 1, bound, A, I) {
                Ok(rest) => {
                    assert(variants_view(before) + (seq![vv] + rest) =~= variants_view(out@)
                        + rest);
                },
                Err(_) => {},
            }
        }
        k = k + 1;
    }
    assert(variants_view(out@) + Seq::<VariantV>::empty() =~= variants_view(out@));
    Ok(out)
}

fn chars_of_string(s: &String) -> (r: Vec<char>)
    ensures
        r@ == s@,
{
    crate::text::chars_of(s.as_str())
}

/// The type that the annotation `s` denotes, given the type aliases in
/// scope and the imported namespaces; the error is its message.
pub fn parse_type_annotation(
    s: &str,
    aliases: &TypeMap,
    imports: &Vec<(String, ImportedNamespace)>,
) -> (r: Result<VarType, String>)
    ensures
        match r {
            Ok(t) => parse_type(s@, type_views(aliases@), import_types(imports@)) == Ok::<
                TypeV,
                Fault,
            >(t@),
            Err(m) => parse_type(s@, type_views(aliases@), import_types(imports@)) matches Err(f)
                && m@ == crate::error::fault_message(f),
        },
{
    let cs = crate::text::chars_of(s);
    match parse_type_chars(cs.as_slice(), aliases, imports) {
        Ok(t) => Ok(t),
        Err(e) => Err(e.message()),
    }
}

} // verus!
