//! Declarations with their default values.
use std::sync::Arc;

use vstd::prelude::*;

use super::lists::{decl_parts, parse_list_items, split_decl, list_items, trims};
use super::params::{import_types, parse_type, parse_type_chars};
use super::ImportedNamespace;
use crate::error::{Fault, TemplateError};
use crate::literals::{literal, literal_value};
use crate::scan::{split_top, top_split};
use crate::text::{slice_of, string_of, trim, trimmed, views};
use crate::types::{type_kind_label, type_views, TypeMap, TypeV, VarDecl, VarType, VariantV};
use crate::value::{type_label_of_view, value_map_contents, values_view, Value, ValueMap, ValueV};

verus! {

/// The content of a [`VarDecl`].
pub struct DeclV {
    pub name: Seq<char>,
    pub ty: TypeV,
    pub default: Option<ValueV>,
}

pub open spec fn decl_view(d: VarDecl) -> DeclV {
    DeclV {
        name: d.name@,
        ty: d.var_type@,
        default: match d.default_value {
            Some(v) => Some(v@),
            None => None,
        },
    }
}

pub open spec fn decls_view(ds: Seq<VarDecl>) -> Seq<DeclV> {
    ds.map_values(|d: VarDecl| decl_view(d))
}

/// The values of a map, by their views.
pub open spec fn value_views(m: Map<Seq<char>, Value>) -> Map<Seq<char>, ValueV> {
    m.map_values(|v: Value| v@)
}

/// `name` is a variant without fields among `vs`.
pub open spec fn unit_variant(vs: Seq<VariantV>, name: Seq<char>) -> bool {
    exists|i: int| 0 <= i < vs.len() && #[trigger] vs[i].name == name && vs[i].fields.len() == 0
}

/// A value fits a declared type.
pub open spec fn matches_type(v: ValueV, ty: TypeV) -> bool
    decreases v, ty,
{
    match ty {
        TypeV::Str => v is Str,
        TypeV::Int => v is Int,
        TypeV::Float => v is Float || v is FloatText,
        TypeV::Bool => v is Bool,
        TypeV::Enum(vs) => match v {
            ValueV::Str(s) => unit_variant(vs, s),
            ValueV::Struct(_) => true,
            _ => false,
        },
        TypeV::ListOf(e) => match v {
            ValueV::List(items) => items_match(items, *e),
            _ => false,
        },
        TypeV::List(_) => v is List,
        TypeV::Struct(_) => v is Struct,
        TypeV::Optional(e) => v is Null || matches_type(v, *e),
    }
}

/// Every item fits the type.
pub open spec fn items_match(items: Seq<ValueV>, ty: TypeV) -> bool
    decreases items, ty,
{
    if items.len() == 0 {
        true
    } else {
        matches_type(items.last(), ty) && items_match(items.drop_last(), ty)
    }
}

/// `v` if it fits the type, else the mismatch error.
pub open spec fn checked(name: Seq<char>, v: ValueV, ty: TypeV) -> Result<ValueV, Fault> {
    if matches_type(v, ty) {
        Ok(v)
    } else {
        Err(
            Fault::DefaultTypeMismatch {
                name,
                expected: type_kind_label(ty),
                actual: type_label_of_view(v),
            },
        )
    }
}

/// The value of one item of a default: a literal, a constant, or a unit
/// variant of the declared enum type.
pub open spec fn item_value(
    name: Seq<char>,
    text: Seq<char>,
    ty: TypeV,
    consts: Map<Seq<char>, ValueV>,
) -> Result<ValueV, Fault> {
    match literal(text) {
        Some(v) => checked(name, v, ty),
        None => if consts.contains_key(text) {
            checked(name, consts[text], ty)
        } else {
            match ty {
                TypeV::Enum(vs) => if unit_variant(vs, text) {
                    Ok(ValueV::Str(text))
                } else {
                    Err(Fault::InvalidDefault { name, text })
                },
                _ => Err(Fault::InvalidDefault { name, text }),
            }
        },
    }
}

/// The values of the items of a list default from `k` on.
pub open spec fn items_values(
    name: Seq<char>,
    items: Seq<Seq<char>>,
    k: int,
    ty: TypeV,
    consts: Map<Seq<char>, ValueV>,
) -> Result<Seq<ValueV>, Fault>
    decreases items.len() - k,
{
    if k < 0 || k >= items.len() {
        Ok(Seq::empty())
    } else {
        match item_value(name, items[k], ty, consts) {
            Err(e) => Err(e),
            Ok(v) => match items_values(name, items, k + 1, ty, consts) {
                Err(e) => Err(e),
                Ok(rest) => Ok(seq![v] + rest),
            },
        }
    }
}

/// The items of a bracketed list default `[a, b, ...]`.
pub open spec fn default_items(t: Seq<char>) -> Seq<Seq<char>> {
    let inner = t.subrange(1, t.len() - 1);
    if trim(inner).len() == 0 {
        Seq::empty()
    } else {
        trims(top_split(inner, seq![','], true))
    }
}

pub open spec fn bracketed(t: Seq<char>) -> bool {
    t.len() >= 2 && t[0] == '[' && t.last() == ']'
}

/// The default value that `text` gives a declaration of type `ty`.
pub open spec fn default_value_of(
    name: Seq<char>,
    text: Seq<char>,
    ty: TypeV,
    consts: Map<Seq<char>, ValueV>,
) -> Result<ValueV, Fault> {
    match ty {
        TypeV::ListOf(e) => if literal(text) is None && !consts.contains_key(text) && bracketed(
            text,
        ) {
            match items_values(name, default_items(text), 0, *e, consts) {
                Ok(vs) => Ok(ValueV::List(vs)),
                Err(x) => Err(x),
            }
        } else {
            item_value(name, text, ty, consts)
        },
        _ => item_value(name, text, ty, consts),
    }
}

/// The declarations that `items` from `k` on make. Constants (`is_const`)
/// must have a value, and each constant is visible to the defaults after it.
pub open spec fn decls_from(
    items: Seq<Seq<char>>,
    k: int,
    is_const: bool,
    al: Map<Seq<char>, TypeV>,
    im: Map<Seq<char>, Map<Seq<char>, TypeV>>,
    consts: Map<Seq<char>, ValueV>,
) -> Result<Seq<DeclV>, Fault>
    decreases items.len() - k,
{
    if k < 0 || k >= items.len() {
        Ok(Seq::empty())
    } else {
        match decl_parts(items[k]) {
            Err(e) => Err(e),
            Ok((name, tt, d)) => match parse_type(tt, al, im) {
                Err(e) => Err(e),
                Ok(tv) => {
                    let dv: Result<Option<ValueV>, Fault> = match d {
                        None => Ok(None),
                        Some(text) => if text.len() == 0 {
                            Ok(None)
                        } else {
                            match default_value_of(name, text, tv, consts) {
                                Ok(v) => Ok(Some(v)),
                                Err(e) => Err(e),
                            }
                        },
                    };
                    match dv {
                        Err(e) => Err(e),
                        Ok(dflt) => if is_const && dflt is None {
                            Err(Fault::ConstWithoutValue(name))
                        } else {
                            let next = if is_const {
                                consts.insert(name, dflt->0)
                            } else {
                                consts
                            };
                            match decls_from(items, k + 1, is_const, al, im, next) {
                                Err(e) => Err(e),
                                Ok(rest) => Ok(seq![DeclV { name, ty: tv, default: dflt }] + rest),
                            }
                        },
                    }
                },
            },
        }
    }
}

/// The declarations that section text `raw` makes.
pub open spec fn declarations(
    raw: Seq<char>,
    is_const: bool,
    al: Map<Seq<char>, TypeV>,
    im: Map<Seq<char>, Map<Seq<char>, TypeV>>,
    consts: Map<Seq<char>, ValueV>,
) -> Result<Seq<DeclV>, Fault> {
    match list_items(raw) {
        Err(e) => Err(e),
        Ok(items) => decls_from(items, 0, is_const, al, im, consts),
    }
}

// ---------------------------------------------------------------------------
// Executable
// ---------------------------------------------------------------------------
/// Whether `name` is a unit variant among `vs`.
fn has_unit_variant(vs: &Vec<crate::types::EnumVariant>, name: &[char]) -> (r: bool)
    ensures
        r == unit_variant(crate::types::variants_view(vs@), name@),
{
    let ghost V = crate::types::variants_view(vs@);
    proof {
        lemma_variants_view(vs@);
        assert forall|j: int| 0 <= j < vs@.len() implies (#[trigger] V[j]).name == vs@[j].name@
            && V[j].fields.len() == vs@[j].fields@.len() by {
            lemma_fields_view_len(vs@[j].fields@);
        }
    }
    let mut i: usize = 0;
    while i < vs.len()
        invariant
            i <= vs@.len(),
            V == crate::types::variants_view(vs@),
            V.len() == vs@.len(),
            forall|j: int|
                0 <= j < vs@.len() ==> (#[trigger] V[j]).name == vs@[j].name@ && V[j].fields.len()
                    == vs@[j].fields@.len(),
            forall|j: int| 0 <= j < i ==> !(#[trigger] V[j].name == name@ && V[j].fields.len() == 0),
        decreases vs@.len() - i,
    {
        let v = &vs[i];
        if crate::text::same_chars(crate::text::chars_of(v.name.as_str()).as_slice(), name)
            && v.fields.len() == 0 {
            assert(V[i as int].name == name@ && V[i as int].fields.len() == 0);
            return true;
        }
        i = i + 1;
    }
    false
}

/// Whether a value fits a declared type.
pub fn value_fits(v: &Value, ty: &VarType) -> (r: bool)
    ensures
        r == matches_type(v@, ty@),
    decreases v, ty,
{
    match ty {
        VarType::Str => matches!(v, Value::Str(_)),
        VarType::Int => matches!(v, Value::Int(_)),
        VarType::Float => matches!(v, Value::Float(_)) || matches!(v, Value::FloatText(_)),
        VarType::Bool => matches!(v, Value::Bool(_)),
        VarType::Enum(vs) => match v {
            Value::Str(s) => has_unit_variant(vs, crate::text::chars_of(s.as_str()).as_slice()),
            Value::Struct(_) => true,
            _ => false,
        },
        VarType::ListOf(e) => match v {
            Value::List(items) => items_fit(items, e),
            _ => false,
        },
        VarType::List(_) => matches!(v, Value::List(_)),
        VarType::Struct(_) => matches!(v, Value::Struct(_)),
        VarType::Optional(e) => matches!(v, Value::Null) || value_fits(v, e),
    }
}

/// Whether every item fits a declared type.
pub fn items_fit(items: &Vec<Value>, ty: &VarType) -> (r: bool)
    ensures
        r == items_match(values_view(items@), ty@),
    decreases items, ty,
{
    let ghost t = ty@;
    let mut i: usize = 0;
    proof {
        lemma_items_match(values_view(items@), t);
        lemma_values_view(items@);
    }
    while i < items.len()
        invariant
            i <= items@.len(),
            t == ty@,
            values_view(items@).len() == items@.len(),
            forall|j: int| 0 <= j < items@.len() ==> #[trigger] values_view(items@)[j] == items@[j]@,
            items_match(values_view(items@), t) <==> forall|j: int|
                0 <= j < items@.len() ==> matches_type(#[trigger] values_view(items@)[j], t),
            forall|j: int| 0 <= j < i ==> matches_type(#[trigger] values_view(items@)[j], t),
        decreases items@.len() - i,
    {
        if !value_fits(&items[i], ty) {
            assert(!matches_type(values_view(items@)[i as int], t));
            return false;
        }
        i = i + 1;
    }
    true
}

pub proof fn lemma_items_match(items: Seq<ValueV>, ty: TypeV)
    ensures
        items_match(items, ty) <==> forall|j: int| 0 <= j < items.len() ==> matches_type(#[trigger] items[j], ty),
    decreases items.len(),
{
    if items.len() > 0 {
        lemma_items_match(items.drop_last(), ty);
        if forall|j: int| 0 <= j < items.len() ==> matches_type(#[trigger] items[j], ty) {
            assert forall|j: int| 0 <= j < items.drop_last().len() implies matches_type(#[trigger] items.drop_last()[j], ty) by {
                assert(items.drop_last()[j] == items[j]);
            }
        }
        if items_match(items, ty) {
            assert forall|j: int| 0 <= j < items.len() implies matches_type(#[trigger] items[j], ty) by {
                if j < items.len() - 1 {
                    assert(items.drop_last()[j] == items[j]);
                }
            }
        }
    }
}

pub proof fn lemma_values_view(vs: Seq<Value>)
    ensures
        values_view(vs).len() == vs.len(),
        forall|j: int| 0 <= j < vs.len() ==> #[trigger] values_view(vs)[j] == vs[j]@,
    decreases vs.len(),
{
    if vs.len() > 0 {
        lemma_values_view(vs.drop_last());
        assert forall|j: int| 0 <= j < vs.len() implies #[trigger] values_view(vs)[j] == vs[j]@ by {
            if j < vs.len() - 1 {
                assert(vs.drop_last()[j] == vs[j]);
            }
        }
    }
}


/// `v` if it fits the type, else the mismatch error.
fn checked_value(name: &[char], v: Value, ty: &VarType) -> (r: Result<Value, TemplateError>)
    ensures
        match r {
            Ok(w) => checked(name@, v@, ty@) == Ok::<ValueV, Fault>(w@),
            Err(e) => checked(name@, v@, ty@) == Err::<ValueV, Fault>(e@),
        },
{
    if value_fits(&v, ty) {
        Ok(v)
    } else {
        let actual = String::from_str(v.type_label());
        assert(actual@ == type_label_of_view(v@));
        Err(
            TemplateError::DefaultTypeMismatch {
                name: string_of(name),
                expected: String::from_str(ty.kind_label()),
                actual,
            },
        )
    }
}

/// The value of one item of a default.
fn item_value_exec(name: &[char], text: &[char], ty: &VarType, consts: &ValueMap) -> (r: Result<
    Value,
    TemplateError,
>)
    ensures
        match r {
            Ok(w) => item_value(name@, text@, ty@, value_views(consts@)) == Ok::<ValueV, Fault>(w@),
            Err(e) => item_value(name@, text@, ty@, value_views(consts@)) == Err::<ValueV, Fault>(
                e@,
            ),
        },
{
    match literal_value(text) {
        Some(v) => checked_value(name, v, ty),
        None => {
            let key = string_of(text);
            match consts.get(key.as_str()) {
                Some(c) => checked_value(name, c.duplicate(), ty),
                None => match ty {
                    VarType::Enum(vs) => if has_unit_variant(vs, text) {
                        Ok(Value::Str(key))
                    } else {
                        Err(TemplateError::InvalidDefault { name: string_of(name), text: key })
                    },
                    _ => Err(TemplateError::InvalidDefault { name: string_of(name), text: key }),
                },
            }
        },
    }
}

/// The default value that `text` gives a declaration of type `ty`.
pub fn resolve_default(name: &[char], text: &[char], ty: &VarType, consts: &ValueMap) -> (r: Result<
    Value,
    TemplateError,
>)
    ensures
        match r {
            Ok(w) => default_value_of(name@, text@, ty@, value_views(consts@)) == Ok::<ValueV, Fault>(
                w@,
            ),
            Err(e) => default_value_of(name@, text@, ty@, value_views(consts@)) == Err::<
                ValueV,
                Fault,
            >(e@),
        },
{
    let ghost C = value_views(consts@);
    match ty {
        VarType::ListOf(e) => {
            let n = text.len();
            let lit = literal_value(text);
            let key = string_of(text);
            if lit.is_none() && !consts.contains_key(key.as_str()) && n >= 2 && text[0] == '['
                && text[n - 1] == ']' {
                let inner = slice_of(text, 1, n - 1);
                let ti = trimmed(inner.as_slice());
                let mut items: Vec<Vec<char>> = Vec::new();
                if ti.len() != 0 {
                    let c = vec![','];
                    assert(c@ =~= seq![',']);
                    let ps = split_top(inner.as_slice(), c.as_slice(), true);
                    let mut k: usize = 0;
                    while k < ps.len()
                        invariant
                            k <= ps@.len(),
                            views(items@) == trims(views(ps@)).take(k as int),
                        decreases ps@.len() - k,
                    {
                        let p = trimmed(ps[k].as_slice());
                        let ghost before = views(items@);
                        items.push(p);
                        assert(views(items@) =~= before.push(p@));
                        assert(trims(views(ps@)).take(k + 1) =~= trims(views(ps@)).take(k as int).push(
                            p@,
                        ));
                        k = k + 1;
                    }
                    assert(trims(views(ps@)).take(ps@.len() as int) =~= trims(views(ps@)));
                } else {
                    assert(views(items@) =~= Seq::<Seq<char>>::empty());
                }
                let ghost I = views(items@);
                assert(I == default_items(text@));
                let ghost whole = default_value_of(name@, text@, ty@, C);
                assert(whole == match items_values(name@, I, 0, (**e)@, C) {
                    Ok(vs) => Ok(ValueV::List(vs)),
                    Err(x) => Err(x),
                });
                let mut vals: Vec<Value> = Vec::new();
                let mut k: usize = 0;
                while k < items.len()
                    invariant
                        k <= items@.len(),
                        I == views(items@),
                        whole == default_value_of(name@, text@, ty@, C),
                        whole == match items_values(name@, I, 0, (**e)@, C) {
                            Ok(vs) => Ok(ValueV::List(vs)),
                            Err(x) => Err(x),
                        },
                        C == value_views(consts@),
                        items_values(name@, I, 0, (**e)@, C) == prepend_values(
                            values_view(vals@),
                            items_values(name@, I, k as int, (**e)@, C),
                        ),
                    decreases items@.len() - k,
                {
                    assert(I[k as int] == items@[k as int]@);
                    match item_value_exec(name, items[k].as_slice(), e, consts) {
                        Err(x) => {
                            return Err(x);
                        },
                        Ok(v) => {
                            let ghost before = vals@;
                            vals.push(v);
                            proof {
                                assert(vals@.drop_last() =~= before);
                                assert(values_view(vals@) == values_view(before).push(v@));
                                match items_values(name@, I, k + 1, (**e)@, C) {
                                    Ok(rest) => {
                                        assert(values_view(before) + (seq![v@] + rest)
                                            =~= values_view(vals@) + rest);
                                    },
                                    Err(_) => {},
                                }
                            }
                        },
                    }
                    k = k + 1;
                }
                assert(values_view(vals@) + Seq::<ValueV>::empty() =~= values_view(vals@));
                Ok(Value::List(Arc::new(vals)))
            } else {
                item_value_exec(name, text, ty, consts)
            }
        },
        _ => item_value_exec(name, text, ty, consts),
    }
}

/// `acc` followed by the result's values, or the result's error.
pub open spec fn prepend_values(acc: Seq<ValueV>, r: Result<Seq<ValueV>, Fault>) -> Result<
    Seq<ValueV>,
    Fault,
> {
    match r {
        Ok(x) => Ok(acc + x),
        Err(e) => Err(e),
    }
}

/// `acc` followed by the result's declarations, or the result's error.
pub open spec fn prepend_decls(acc: Seq<DeclV>, r: Result<Seq<DeclV>, Fault>) -> Result<
    Seq<DeclV>,
    Fault,
> {
    match r {
        Ok(x) => Ok(acc + x),
        Err(e) => Err(e),
    }
}

/// The declarations that the section text `raw` makes.
pub fn parse_declarations_chars(
    raw: &[char],
    al: &TypeMap,
    im: &Vec<(String, ImportedNamespace)>,
    is_const: bool,
    consts: &ValueMap,
) -> (r: Result<Vec<VarDecl>, TemplateError>)
    ensures
        match r {
            Ok(ds) => declarations(
                raw@,
                is_const,
                type_views(al@),
                import_types(im@),
                value_views(consts@),
            ) == Ok::<Seq<DeclV>, Fault>(decls_view(ds@)),
            Err(e) => declarations(
                raw@,
                is_const,
                type_views(al@),
                import_types(im@),
                value_views(consts@),
            ) == Err::<Seq<DeclV>, Fault>(e@),
        },
{
    let ghost A = type_views(al@);
    let ghost IM = import_types(im@);
    let items = match parse_list_items(raw) {
        Ok(items) => items,
        Err(e) => {
            return Err(e);
        },
    };
    let ghost I = views(items@);
    let ghost C0 = value_views(consts@);
    let mut local = consts.duplicate();
    let mut out: Vec<VarDecl> = Vec::new();
    let mut k: usize = 0;
    while k < items.len()
        invariant
            k <= items@.len(),
            I == views(items@),
            A == type_views(al@),
            IM == import_types(im@),
            C0 == value_views(consts@),
            declarations(raw@, is_const, A, IM, C0) == decls_from(I, 0, is_const, A, IM, C0),
            decls_from(I, 0, is_const, A, IM, C0) == prepend_decls(
                decls_view(out@),
                decls_from(I, k as int, is_const, A, IM, value_views(local@)),
            ),
        decreases items@.len() - k,
    {
        let ghost C = value_views(local@);
        assert(I[k as int] == items@[k as int]@);
        let (name, tt, d) = match split_decl(items[k].as_slice()) {
            Ok(parts) => parts,
            Err(e) => {
                return Err(e);
            },
        };
        let tv = match parse_type_chars(tt.as_slice(), al, im) {
            Ok(t) => t,
            Err(e) => {
                return Err(e);
            },
        };
        let dflt: Option<Value> = match d {
            None => None,
            Some(text) => if text.len() == 0 {
                None
            } else {
                match resolve_default(name.as_slice(), text.as_slice(), &tv, &local) {
                    Ok(v) => Some(v),
                    Err(e) => {
                        return Err(e);
                    },
                }
            },
        };
        if is_const && dflt.is_none() {
            return Err(TemplateError::ConstWithoutValue(string_of(name.as_slice())));
        }
        let ghost dv: Option<ValueV> = match &dflt {
            Some(v) => Some(v@),
            None => None,
        };
        if is_const {
            match &dflt {
                Some(v) => {
                    local.insert(string_of(name.as_slice()), v.duplicate());
                    assert(value_views(local@) =~= C.insert(name@, v@));
                },
                None => {},
            }
        }
        let decl = VarDecl { name: string_of(name.as_slice()), var_type: tv, default_value: dflt };
        let ghost before = out@;
        out.push(decl);
        proof {
            assert(decls_view(out@) =~= decls_view(before).push(decl_view(decl)));
            let dview = DeclV { name: name@, ty: tv@, default: dv };
            assert(decl_view(decl) == dview);
            match decls_from(I, k + 1, is_const, A, IM, value_views(local@)) {
                Ok(rest) => {
                    assert(decls_view(before) + (seq![dview] + rest) =~= decls_view(out@) + rest);
                },
                Err(_) => {},
            }
        }
        k = k + 1;
    }
    assert(decls_view(out@) + Seq::<DeclV>::empty() =~= decls_view(out@));
    Ok(out)
}

pub proof fn lemma_variants_view(vs: Seq<crate::types::EnumVariant>)
    ensures
        crate::types::variants_view(vs).len() == vs.len(),
        forall|j: int|
            0 <= j < vs.len() ==> (#[trigger] crate::types::variants_view(vs)[j]).name == vs[j].name@
                && crate::types::variants_view(vs)[j].fields == crate::types::fields_view(
                vs[j].fields@,
            ),
    decreases vs.len(),
{
    if vs.len() > 0 {
        lemma_variants_view(vs.drop_last());
    }
    lemma_fields_view_len_all(vs);
}

proof fn lemma_fields_view_len_all(vs: Seq<crate::types::EnumVariant>)
    ensures
        forall|j: int|
            0 <= j < vs.len() ==> crate::types::fields_view(#[trigger] vs[j].fields@).len()
                == vs[j].fields@.len(),
{
    assert forall|j: int| 0 <= j < vs.len() implies crate::types::fields_view(
        #[trigger] vs[j].fields@,
    ).len() == vs[j].fields@.len() by {
        lemma_fields_view_len(vs[j].fields@);
    }
}

pub proof fn lemma_fields_view_len(fs: Seq<crate::types::FieldDecl>)
    ensures
        crate::types::fields_view(fs).len() == fs.len(),
    decreases fs.len(),
{
    if fs.len() > 0 {
        lemma_fields_view_len(fs.drop_last());
    }
}

/// The declarations that the section text `rest` makes, given the type
/// aliases in scope, the imported namespaces, whether the section declares
/// constants, and the constants that defaults may name.
pub fn parse_declarations(
    rest: &str,
    aliases: &TypeMap,
    imports: &Vec<(String, ImportedNamespace)>,
    is_const: bool,
    consts: &ValueMap,
) -> (r: Result<Vec<VarDecl>, TemplateError>)
    ensures
        match r {
            Ok(ds) => declarations(
                rest@,
                is_const,
                type_views(aliases@),
                import_types(imports@),
                value_views(consts@),
            ) == Ok::<Seq<DeclV>, Fault>(decls_view(ds@)),
            Err(e) => declarations(
                rest@,
                is_const,
                type_views(aliases@),
                import_types(imports@),
                value_views(consts@),
            ) == Err::<Seq<DeclV>, Fault>(e@),
        },
{
    let cs = crate::text::chars_of(rest);
    parse_declarations_chars(cs.as_slice(), aliases, imports, is_const, consts)
}

} // verus!
