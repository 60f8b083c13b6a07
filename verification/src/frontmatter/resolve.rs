//! Resolution of the `env:`, `consts:` and `imports:` sections against each
//! other: provided environment values, constants visible to defaults, and
//! constants that imported templates export.
use vstd::prelude::*;

use super::decls::{decl_view, declarations, decls_view, parse_declarations_chars, value_views, DeclV};
use super::params::import_types;
use super::ImportedNamespace;
use super::sections::{interpolate, interpolate_from, import_view, imports_view};
use super::Import;
use crate::error::{Fault, TemplateError};
use crate::literals::{kw_false, kw_true};
use crate::numeric::{float_syntax, int_literal, is_float_syntax, parse_int};
use crate::text::{chars_of, same_chars, string_of};
use crate::types::{lists_types, type_views, TypeMap, TypeV, VarDecl, VarType};
use crate::value::{Value, ValueMap, ValueV};

verus! {

// ---------------------------------------------------------------------------
// env:
// ---------------------------------------------------------------------------
/// Provided environment values by their content.
pub open spec fn env_view(e: Seq<(&str, Value)>) -> Seq<(Seq<char>, ValueV)> {
    e.map_values(|p: (&str, Value)| (p.0@, p.1@))
}

/// The first provided value named `name`, from position `i` on.
pub open spec fn provided_from(env: Seq<(Seq<char>, ValueV)>, name: Seq<char>, i: int) -> Option<
    ValueV,
>
    decreases env.len() - i,
{
    if i < 0 || i >= env.len() {
        None
    } else if env[i].0 == name {
        Some(env[i].1)
    } else {
        provided_from(env, name, i + 1)
    }
}

/// The value that an `env:` entry of type `ty` takes from a provided value:
/// a string is read as the scalar type it stands for, anything else is taken
/// as it is.
pub open spec fn env_value(name: Seq<char>, v: ValueV, ty: TypeV) -> Result<ValueV, Fault> {
    match v {
        ValueV::Str(raw) => match ty {
            TypeV::Int => match int_literal(raw) {
                Some(i) => Ok(ValueV::Int(i)),
                None => Err(Fault::EnvInvalid { name, expected: "int"@, raw }),
            },
            TypeV::Bool => if raw == kw_true() {
                Ok(ValueV::Bool(true))
            } else if raw == kw_false() {
                Ok(ValueV::Bool(false))
            } else {
                Err(Fault::EnvInvalid { name, expected: "bool"@, raw })
            },
            TypeV::Float => if float_syntax(raw) {
                Ok(ValueV::FloatText(raw))
            } else {
                Err(Fault::EnvInvalid { name, expected: "float"@, raw })
            },
            _ => Ok(v),
        },
        _ => Ok(v),
    }
}

/// An `env:` declaration after resolution: a provided value replaces the
/// default; without one the default must exist.
pub open spec fn env_decl(d: DeclV, env: Seq<(Seq<char>, ValueV)>) -> Result<DeclV, Fault> {
    match provided_from(env, d.name, 0) {
        Some(v) => match env_value(d.name, v, d.ty) {
            Ok(val) => Ok(DeclV { name: d.name, ty: d.ty, default: Some(val) }),
            Err(e) => Err(e),
        },
        None => if d.default is Some {
            Ok(d)
        } else {
            Err(Fault::EnvMissing(d.name))
        },
    }
}

/// The resolved `env:` declarations from position `k` on.
pub open spec fn env_decls(ds: Seq<DeclV>, env: Seq<(Seq<char>, ValueV)>, k: int) -> Result<
    Seq<DeclV>,
    Fault,
>
    decreases ds.len() - k,
{
    if k < 0 || k >= ds.len() {
        Ok(Seq::empty())
    } else {
        match env_decl(ds[k], env) {
            Err(e) => Err(e),
            Ok(d) => match env_decls(ds, env, k + 1) {
                Err(e) => Err(e),
                Ok(rest) => Ok(seq![d] + rest),
            },
        }
    }
}

/// The value an `env:` entry named `name` of type `ty` takes from the
/// provided value `value`.
pub fn validate_env_value(name: &str, value: &Value, var_type: &VarType) -> (r: Result<
    Value,
    TemplateError,
>)
    ensures
        match r {
            Ok(v) => env_value(name@, value@, var_type@) == Ok::<ValueV, Fault>(v@),
            Err(e) => env_value(name@, value@, var_type@) == Err::<ValueV, Fault>(e@),
        },
{
    match value {
        Value::Str(raw) => match var_type {
            VarType::Int => {
                let cs = chars_of(raw.as_str());
                match parse_int(cs.as_slice()) {
                    Some(i) => Ok(Value::Int(i)),
                    None => Err(
                        TemplateError::EnvInvalid {
                            name: String::from_str(name),
                            expected: String::from_str("int"),
                            raw: raw.clone(),
                        },
                    ),
                }
            },
            VarType::Bool => {
                let cs = chars_of(raw.as_str());
                let t = vec!['t', 'r', 'u', 'e'];
                let f = vec!['f', 'a', 'l', 's', 'e'];
                assert(t@ =~= kw_true());
                assert(f@ =~= kw_false());
                if same_chars(cs.as_slice(), t.as_slice()) {
                    Ok(Value::Bool(true))
                } else if same_chars(cs.as_slice(), f.as_slice()) {
                    Ok(Value::Bool(false))
                } else {
                    Err(
                        TemplateError::EnvInvalid {
                            name: String::from_str(name),
                            expected: String::from_str("bool"),
                            raw: raw.clone(),
                        },
                    )
                }
            },
            VarType::Float => {
                let cs = chars_of(raw.as_str());
                if is_float_syntax(cs.as_slice()) {
                    Ok(Value::FloatText(raw.clone()))
                } else {
                    Err(
                        TemplateError::EnvInvalid {
                            name: String::from_str(name),
                            expected: String::from_str("float"),
                            raw: raw.clone(),
                        },
                    )
                }
            },
            _ => Ok(value.duplicate()),
        },
        _ => Ok(value.duplicate()),
    }
}

/// The first provided value named `name`.
fn find_provided<'a>(env_values: &'a [(&str, Value)], name: &String) -> (r: Option<&'a Value>)
    ensures
        match r {
            Some(v) => provided_from(env_view(env_values@), name@, 0) == Some(v@),
            None => provided_from(env_view(env_values@), name@, 0) is None,
        },
{
    let ghost E = env_view(env_values@);
    let n = env_values.len();
    let mut i: usize = n;
    let mut found: Option<&Value> = None;
    while i > 0
        invariant
            i <= n == env_values@.len(),
            E == env_view(env_values@),
            match found {
                Some(v) => provided_from(E, name@, i as int) == Some(v@),
                None => provided_from(E, name@, i as int) is None,
            },
        decreases i,
    {
        i = i - 1;
        let key = String::from_str(env_values[i].0);
        assert(E[i as int] == (env_values@[i as int].0@, env_values@[i as int].1@));
        if key == *name {
            found = Some(&env_values[i].1);
        }
    }
    found
}

/// The `env:` declarations with the provided values applied.
pub fn resolve_env(decls: Vec<VarDecl>, env_values: &[(&str, Value)]) -> (r: Result<
    Vec<VarDecl>,
    TemplateError,
>)
    ensures
        match r {
            Ok(ds) => env_decls(decls_view(decls@), env_view(env_values@), 0) == Ok::<
                Seq<DeclV>,
                Fault,
            >(decls_view(ds@)),
            Err(e) => env_decls(decls_view(decls@), env_view(env_values@), 0) == Err::<
                Seq<DeclV>,
                Fault,
            >(e@),
        },
{
    let ghost D = decls_view(decls@);
    let ghost E = env_view(env_values@);
    let mut out: Vec<VarDecl> = Vec::new();
    for d in it: decls
        invariant
            D == decls_view(it.seq()),
            E == env_view(env_values@),
            env_decls(D, E, 0) == match env_decls(D, E, it.index() as int) {
                Ok(x) => Ok(decls_view(out@) + x),
                Err(e) => Err(e),
            },
    {
        let ghost k = it.index() as int;
        assert(D[k] == decl_view(d));
        let ghost before = decls_view(out@);
        let resolved = match find_provided(env_values, &d.name) {
            Some(v) => match validate_env_value(d.name.as_str(), v, &d.var_type) {
                Ok(val) => VarDecl { name: d.name, var_type: d.var_type, default_value: Some(val) },
                Err(e) => {
                    return Err(e);
                },
            },
            None => {
                if d.default_value.is_none() {
                    return Err(TemplateError::EnvMissing(d.name));
                }
                d
            },
        };
        let ghost dv = decl_view(resolved);
        out.push(resolved);
        assert(decls_view(out@) =~= before.push(dv));
        proof {
            match env_decls(D, E, k + 1) {
                Ok(x) => {
                    assert(before + (seq![dv] + x) =~= decls_view(out@) + x);
                },
                Err(_) => {},
            }
        }
    }
    assert(decls_view(out@) + Seq::<DeclV>::empty() =~= decls_view(out@));
    Ok(out)
}

// ---------------------------------------------------------------------------
// Constants visible to defaults
// ---------------------------------------------------------------------------
/// The values that declarations give their names; a later declaration
/// replaces an earlier one with the same name.
pub open spec fn defaults_map(ds: Seq<DeclV>) -> Map<Seq<char>, ValueV>
    decreases ds.len(),
{
    if ds.len() == 0 {
        Map::empty()
    } else {
        let m = defaults_map(ds.drop_last());
        match ds.last().default {
            Some(v) => m.insert(ds.last().name, v),
            None => m,
        }
    }
}

/// Adds the value of each declaration that has one to `m`, in order.
pub fn insert_defaults(m: &mut ValueMap, ds: &Vec<VarDecl>)
    ensures
        value_views(final(m)@) == value_views(old(m)@).union_prefer_right(
            defaults_map(decls_view(ds@)),
        ),
{
    let ghost base = value_views(m@);
    let ghost D = decls_view(ds@);
    let mut i: usize = 0;
    assert(defaults_map(D.take(0)) =~= Map::<Seq<char>, ValueV>::empty());
    assert(base.union_prefer_right(Map::empty()) =~= base);
    while i < ds.len()
        invariant
            i <= ds@.len(),
            D == decls_view(ds@),
            value_views(m@) == base.union_prefer_right(defaults_map(D.take(i as int))),
        decreases ds@.len() - i,
    {
        assert(D.take(i + 1).drop_last() =~= D.take(i as int));
        assert(D.take(i + 1).last() == decl_view(ds@[i as int]));
        let ghost before = value_views(m@);
        match &ds[i].default_value {
            Some(v) => {
                m.insert(ds[i].name.clone(), v.duplicate());
                assert(value_views(m@) =~= before.insert(ds@[i as int].name@, v@));
                assert(value_views(m@) =~= base.union_prefer_right(defaults_map(D.take(i + 1))));
            },
            None => {},
        }
        i = i + 1;
    }
    assert(D.take(ds@.len() as int) =~= D);
}

/// Adds every entry of `src` to `m`.
pub fn insert_all(m: &mut ValueMap, src: &ValueMap)
    ensures
        final(m)@ == old(m)@.union_prefer_right(src@),
{
    let es = src.entries();
    let ghost base = m@;
    let mut i: usize = 0;
    while i < es.len()
        invariant
            i <= es@.len(),
            crate::value::lists_entries(src@, es@),
            m@ == base.union_prefer_right(
                src@.restrict(Set::new(|k: Seq<char>| exists|j: int| 0 <= j < i && #[trigger] es@[j].0@ == k)),
            ),
        decreases es@.len() - i,
    {
        let ghost before = m@;
        m.insert(es[i].0.clone(), es[i].1.duplicate());
        assert(m@ =~= base.union_prefer_right(
            src@.restrict(Set::new(|k: Seq<char>| exists|j: int| 0 <= j < i + 1 && #[trigger] es@[j].0@ == k)),
        )) by {
            assert forall|k: Seq<char>| #[trigger] m@.contains_key(k) implies base.union_prefer_right(
                src@.restrict(Set::new(|k: Seq<char>| exists|j: int| 0 <= j < i + 1 && #[trigger] es@[j].0@ == k)),
            ).contains_key(k) by {
                if k != es@[i as int].0@ && !base.contains_key(k) {
                    let j = choose|j: int| 0 <= j < i && #[trigger] es@[j].0@ == k;
                    assert(exists|jj: int| 0 <= jj < i + 1 && #[trigger] es@[jj].0@ == k);
                }
            }
            assert forall|k: Seq<char>| (exists|j: int| 0 <= j < i + 1 && #[trigger] es@[j].0@ == k) implies m@.contains_key(k) by {
                let j = choose|j: int| 0 <= j < i + 1 && #[trigger] es@[j].0@ == k;
                if j < i {
                    assert(exists|jj: int| 0 <= jj < i && #[trigger] es@[jj].0@ == k);
                }
            }
        }
        i = i + 1;
    }
    assert(src@.restrict(Set::new(|k: Seq<char>| exists|j: int| 0 <= j < es@.len() && #[trigger] es@[j].0@ == k)) =~= src@) by {
        assert forall|k: Seq<char>| src@.contains_key(k) implies (exists|j: int| 0 <= j < es@.len() && #[trigger] es@[j].0@ == k) by {}
    }
}

/// The constants that defaults may name: the values of the local constants,
/// then the imported constants (keyed `stem.NAME`), which win on a clash.
pub fn build_available_consts(consts: &Vec<VarDecl>, imported_consts: &ValueMap) -> (r: ValueMap)
    ensures
        value_views(r@) == defaults_map(decls_view(consts@)).union_prefer_right(
            value_views(imported_consts@),
        ),
{
    let mut m = ValueMap::new();
    insert_defaults(&mut m, consts);
    let ghost mid = m@;
    insert_all(&mut m, imported_consts);
    assert(value_views(m@) =~= value_views(mid).union_prefer_right(value_views(imported_consts@)));
    assert(value_views(crate::value::no_entries()).union_prefer_right(defaults_map(decls_view(consts@)))
        =~= defaults_map(decls_view(consts@)));
    m
}

// ---------------------------------------------------------------------------
// Import paths
// ---------------------------------------------------------------------------
/// The imports from position `k` on with `{{ consts.NAME }}` interpolated in
/// their paths.
pub open spec fn imports_interpolated(
    is: Seq<(Seq<char>, Seq<char>)>,
    k: int,
    consts: Map<Seq<char>, ValueV>,
) -> Result<Seq<(Seq<char>, Seq<char>)>, Fault>
    decreases is.len() - k,
{
    if k < 0 || k >= is.len() {
        Ok(Seq::empty())
    } else {
        match interpolate_from(is[k].1, 0, consts) {
            Err(e) => Err(e),
            Ok(p) => match imports_interpolated(is, k + 1, consts) {
                Err(e) => Err(e),
                Ok(rest) => Ok(seq![(is[k].0, p)] + rest),
            },
        }
    }
}

/// The imports with `{{ consts.NAME }}` interpolated in their paths.
pub fn interpolate_imports(imports: &Vec<Import>, consts: &ValueMap) -> (r: Result<
    Vec<Import>,
    TemplateError,
>)
    ensures
        match r {
            Ok(is) => imports_interpolated(imports_view(imports@), 0, value_views(consts@)) == Ok::<
                Seq<(Seq<char>, Seq<char>)>,
                Fault,
            >(imports_view(is@)),
            Err(e) => imports_interpolated(imports_view(imports@), 0, value_views(consts@))
                == Err::<Seq<(Seq<char>, Seq<char>)>, Fault>(e@),
        },
{
    let ghost I = imports_view(imports@);
    let ghost C = value_views(consts@);
    let mut out: Vec<Import> = Vec::new();
    let mut k: usize = 0;
    while k < imports.len()
        invariant
            k <= imports@.len(),
            I == imports_view(imports@),
            C == value_views(consts@),
            imports_interpolated(I, 0, C) == match imports_interpolated(I, k as int, C) {
                Ok(x) => Ok(imports_view(out@) + x),
                Err(e) => Err(e),
            },
        decreases imports@.len() - k,
    {
        let path = chars_of(imports[k].path.as_str());
        assert(I[k as int] == import_view(imports@[k as int]));
        let p = match interpolate(path.as_slice(), consts) {
            Ok(p) => p,
            Err(e) => {
                return Err(e);
            },
        };
        let imp = Import { stem: imports[k].stem.clone(), path: string_of(p.as_slice()) };
        let ghost before = imports_view(out@);
        let ghost iv = import_view(imp);
        out.push(imp);
        assert(imports_view(out@) =~= before.push(iv));
        proof {
            match imports_interpolated(I, k + 1, C) {
                Ok(x) => {
                    assert(before + (seq![iv] + x) =~= imports_view(out@) + x);
                },
                Err(_) => {},
            }
        }
        k = k + 1;
    }
    assert(imports_view(out@) + Seq::<(Seq<char>, Seq<char>)>::empty() =~= imports_view(out@));
    Ok(out)
}

// ---------------------------------------------------------------------------
// Resolution
// ---------------------------------------------------------------------------
/// Section text, if the section is present.
pub open spec fn opt_chars(o: Option<Vec<char>>) -> Option<Seq<char>> {
    match o {
        Some(v) => Some(v@),
        None => None,
    }
}

/// The type aliases in scope: the parent's, overridden by the template's own.
pub open spec fn merged_aliases(parent: Option<Map<Seq<char>, TypeV>>, own: Map<Seq<char>, TypeV>) -> Map<
    Seq<char>,
    TypeV,
> {
    match parent {
        Some(p) => p.union_prefer_right(own),
        None => own,
    }
}

/// The names that declarations declare.
pub open spec fn decl_names(ds: Seq<DeclV>) -> Set<Seq<char>> {
    Set::new(|n: Seq<char>| exists|i: int| 0 <= i < ds.len() && #[trigger] ds[i].name == n)
}

/// The outcome of resolving `env:`, `consts:` and `imports:`.
pub struct ResolvedV {
    /// Type aliases in scope.
    pub merged: Map<Seq<char>, TypeV>,
    /// `env:` declarations with the provided values applied.
    pub env: Seq<DeclV>,
    /// Imports with interpolated paths.
    pub imports: Seq<(Seq<char>, Seq<char>)>,
    /// `consts:` declarations.
    pub consts: Seq<DeclV>,
    /// Constants that `params:` defaults may name.
    pub available: Map<Seq<char>, ValueV>,
}

/// The constants known before imports are resolved: the `env:` values, then
/// the `consts:` values if that section reads without imports (a failure
/// here is not an error: the full reading below reports it).
pub open spec fn preliminary_consts(
    envs: Seq<DeclV>,
    consts_raw: Option<Seq<char>>,
    merged: Map<Seq<char>, TypeV>,
) -> Map<Seq<char>, ValueV> {
    let p0 = defaults_map(envs);
    match consts_raw {
        None => p0,
        Some(raw) => match declarations(raw, true, merged, Map::empty(), p0) {
            Ok(cds) => p0.union_prefer_right(defaults_map(cds)),
            Err(_) => p0,
        },
    }
}

/// The `env:` declarations of section text `env_raw`, each resolved against
/// the provided values.
pub open spec fn env_section(
    merged: Map<Seq<char>, TypeV>,
    env_raw: Option<Seq<char>>,
    env: Seq<(Seq<char>, ValueV)>,
) -> Result<Seq<DeclV>, Fault> {
    match env_raw {
        None => Ok(Seq::empty()),
        Some(raw) => match declarations(raw, false, merged, Map::empty(), Map::empty()) {
            Err(e) => Err(e),
            Ok(ds) => env_decls(ds, env, 0),
        },
    }
}

/// The imports of a template with no parent, their paths interpolated with
/// the constants known before imports are resolved.
pub open spec fn requested_imports(
    own: Map<Seq<char>, TypeV>,
    imports: Seq<(Seq<char>, Seq<char>)>,
    consts_raw: Option<Seq<char>>,
    env_raw: Option<Seq<char>>,
    env: Seq<(Seq<char>, ValueV)>,
) -> Result<Seq<(Seq<char>, Seq<char>)>, Fault> {
    let merged = merged_aliases(None, own);
    match env_section(merged, env_raw, env) {
        Err(e) => Err(e),
        Ok(envs) => imports_interpolated(imports, 0, preliminary_consts(envs, consts_raw, merged)),
    }
}

/// Resolution of `env:`, `consts:` and `imports:`, given the template's own
/// type aliases, its imports, the section texts, the provided environment
/// values, the parent's type aliases, the resolved imported namespaces and
/// the constants they export.
pub open spec fn resolution(
    own: Map<Seq<char>, TypeV>,
    imports: Seq<(Seq<char>, Seq<char>)>,
    consts_raw: Option<Seq<char>>,
    env_raw: Option<Seq<char>>,
    env: Seq<(Seq<char>, ValueV)>,
    parent: Option<Map<Seq<char>, TypeV>>,
    rs: Seq<(String, ImportedNamespace)>,
    imported: Map<Seq<char>, ValueV>,
) -> Result<ResolvedV, Fault> {
    let merged = merged_aliases(parent, own);
    match env_section(merged, env_raw, env) {
        Err(e) => Err(e),
        Ok(envs) => {
            let prelim = preliminary_consts(envs, consts_raw, merged);
            match imports_interpolated(imports, 0, prelim) {
                Err(e) => Err(e),
                Ok(is) => {
                    let consts_r: Result<Seq<DeclV>, Fault> = match consts_raw {
                        None => Ok(Seq::empty()),
                        Some(raw) => declarations(raw, true, merged, import_types(rs), prelim),
                    };
                    match consts_r {
                        Err(e) => Err(e),
                        Ok(cs) => Ok(
                            ResolvedV {
                                merged,
                                env: envs,
                                imports: is,
                                consts: cs,
                                available: prelim.restrict(decl_names(envs)).union_prefer_right(
                                    defaults_map(cs).union_prefer_right(imported),
                                ),
                            },
                        ),
                    }
                },
            }
        },
    }
}

/// The result of resolution.
pub struct Resolved {
    pub merged: TypeMap,
    pub env: Vec<VarDecl>,
    pub imports: Vec<Import>,
    pub consts: Vec<VarDecl>,
    pub available: ValueMap,
}

pub open spec fn resolved_view(r: Resolved) -> ResolvedV {
    ResolvedV {
        merged: type_views(r.merged@),
        env: decls_view(r.env@),
        imports: imports_view(r.imports@),
        consts: decls_view(r.consts@),
        available: value_views(r.available@),
    }
}

/// Adds a copy of every type of `src` to `dst`.
pub fn merge_types(dst: &mut TypeMap, src: &TypeMap)
    ensures
        type_views(final(dst)@) == type_views(old(dst)@).union_prefer_right(type_views(src@)),
{
    let es = src.entries();
    let ghost base = type_views(dst@);
    let ghost S = type_views(src@);
    let mut i: usize = 0;
    while i < es.len()
        invariant
            i <= es@.len(),
            S == type_views(src@),
            lists_types(src@, es@),
            type_views(dst@) == base.union_prefer_right(
                S.restrict(Set::new(|k: Seq<char>| exists|j: int| 0 <= j < i && #[trigger] es@[j].0@ == k)),
            ),
        decreases es@.len() - i,
    {
        let ghost before = type_views(dst@);
        dst.insert(es[i].0.clone(), es[i].1.duplicate());
        assert(type_views(dst@) =~= before.insert(es@[i as int].0@, es@[i as int].1@));
        assert(type_views(dst@) =~= base.union_prefer_right(
            S.restrict(Set::new(|k: Seq<char>| exists|j: int| 0 <= j < i + 1 && #[trigger] es@[j].0@ == k)),
        )) by {
            assert forall|k: Seq<char>| #[trigger] type_views(dst@).contains_key(k) implies base.union_prefer_right(
                S.restrict(Set::new(|k: Seq<char>| exists|j: int| 0 <= j < i + 1 && #[trigger] es@[j].0@ == k)),
            ).contains_key(k) by {
                if k != es@[i as int].0@ && !base.contains_key(k) {
                    let j = choose|j: int| 0 <= j < i && #[trigger] es@[j].0@ == k;
                    assert(exists|jj: int| 0 <= jj < i + 1 && #[trigger] es@[jj].0@ == k);
                }
            }
            assert forall|k: Seq<char>| (exists|j: int| 0 <= j < i + 1 && #[trigger] es@[j].0@ == k) implies type_views(dst@).contains_key(k) by {
                let j = choose|j: int| 0 <= j < i + 1 && #[trigger] es@[j].0@ == k;
                if j < i {
                    assert(exists|jj: int| 0 <= jj < i && #[trigger] es@[jj].0@ == k);
                }
            }
        }
        i = i + 1;
    }
    assert(S.restrict(Set::new(|k: Seq<char>| exists|j: int| 0 <= j < es@.len() && #[trigger] es@[j].0@ == k)) =~= S) by {
        assert forall|k: Seq<char>| S.contains_key(k) implies (exists|j: int| 0 <= j < es@.len() && #[trigger] es@[j].0@ == k) by {}
    }
}

/// The `env:` declarations resolved against the provided values, and the
/// preliminary constants computed from them and the `consts:` section.
pub fn env_and_preliminary(
    merged: &TypeMap,
    consts_raw: &Option<Vec<char>>,
    env_raw: &Option<Vec<char>>,
    env_values: &[(&str, Value)],
) -> (r: Result<(Vec<VarDecl>, ValueMap), TemplateError>)
    ensures
        match r {
            Ok((env, prelim)) => env_section(type_views(merged@), opt_chars(*env_raw), env_view(env_values@))
                == Ok::<Seq<DeclV>, Fault>(decls_view(env@)) && value_views(prelim@)
                == preliminary_consts(decls_view(env@), opt_chars(*consts_raw), type_views(merged@)),
            Err(e) => env_section(type_views(merged@), opt_chars(*env_raw), env_view(env_values@))
                == Err::<Seq<DeclV>, Fault>(e@),
        },
{
    let no_imports: Vec<(String, ImportedNamespace)> = Vec::new();
    assert(import_types(no_imports@) =~= Map::<Seq<char>, Map<Seq<char>, TypeV>>::empty());
    let empty = ValueMap::new();
    assert(value_views(empty@) =~= Map::<Seq<char>, ValueV>::empty());
    assert(decls_view(Seq::<VarDecl>::empty()) =~= Seq::<DeclV>::empty());
    let env = match env_raw {
        None => Vec::new(),
        Some(raw) => {
            let ds = match parse_declarations_chars(raw.as_slice(), merged, &no_imports, false, &empty) {
                Ok(ds) => ds,
                Err(e) => {
                    return Err(e);
                },
            };
            match resolve_env(ds, env_values) {
                Ok(ds) => ds,
                Err(e) => {
                    return Err(e);
                },
            }
        },
    };
    let mut prelim = ValueMap::new();
    insert_defaults(&mut prelim, &env);
    assert(value_views(crate::value::no_entries()).union_prefer_right(defaults_map(decls_view(env@)))
        =~= defaults_map(decls_view(env@)));
    let ghost p0 = value_views(prelim@);
    match consts_raw {
        None => {},
        Some(raw) => {
            match parse_declarations_chars(raw.as_slice(), merged, &no_imports, true, &prelim) {
                Ok(cds) => {
                    insert_defaults(&mut prelim, &cds);
                },
                Err(_) => {},
            }
        },
    }
    assert(value_views(prelim@) == preliminary_consts(decls_view(env@), opt_chars(*consts_raw), type_views(merged@)));
    Ok((env, prelim))
}

/// Resolves `env:`, `consts:` and `imports:` against each other.
pub fn resolve_fm_consts_and_imports(
    own: &TypeMap,
    imports: &Vec<Import>,
    consts_raw: &Option<Vec<char>>,
    env_raw: &Option<Vec<char>>,
    env_values: &[(&str, Value)],
    parent: Option<&TypeMap>,
    resolved: &Vec<(String, ImportedNamespace)>,
    imported: &ValueMap,
) -> (r: Result<Resolved, TemplateError>)
    ensures
        match r {
            Ok(x) => resolution(
                type_views(own@),
                imports_view(imports@),
                opt_chars(*consts_raw),
                opt_chars(*env_raw),
                env_view(env_values@),
                match parent {
                    Some(p) => Some(type_views(p@)),
                    None => None,
                },
                resolved@,
                value_views(imported@),
            ) == Ok::<ResolvedV, Fault>(resolved_view(x)),
            Err(e) => resolution(
                type_views(own@),
                imports_view(imports@),
                opt_chars(*consts_raw),
                opt_chars(*env_raw),
                env_view(env_values@),
                match parent {
                    Some(p) => Some(type_views(p@)),
                    None => None,
                },
                resolved@,
                value_views(imported@),
            ) == Err::<ResolvedV, Fault>(e@),
        },
{
    let mut merged = match parent {
        Some(p) => p.duplicate(),
        None => TypeMap::new(),
    };
    assert(type_views(crate::types::no_types()) =~= Map::<Seq<char>, TypeV>::empty());
    merge_types(&mut merged, own);
    assert(type_views(merged@) =~= merged_aliases(
        match parent {
            Some(p) => Some(type_views(p@)),
            None => None,
        },
        type_views(own@),
    ));
    let (env, prelim) = match env_and_preliminary(&merged, consts_raw, env_raw, env_values) {
        Ok(x) => x,
        Err(e) => {
            return Err(e);
        },
    };
    let ghost P = value_views(prelim@);
    let is = match interpolate_imports(imports, &prelim) {
        Ok(is) => is,
        Err(e) => {
            return Err(e);
        },
    };
    let consts = match consts_raw {
        None => Vec::new(),
        Some(raw) => match parse_declarations_chars(raw.as_slice(), &merged, resolved, true, &prelim) {
            Ok(cs) => cs,
            Err(e) => {
                return Err(e);
            },
        },
    };
    assert(decls_view(Seq::<VarDecl>::empty()) =~= Seq::<DeclV>::empty());
    let mut available = build_available_consts(&consts, imported);
    let ghost A0 = value_views(available@);
    let ghost E = decls_view(env@);
    let mut i: usize = 0;
    assert(P.restrict(Set::<Seq<char>>::empty()).union_prefer_right(A0) =~= A0);
    assert(Set::new(|n: Seq<char>| exists|j: int| 0 <= j < 0 && #[trigger] E[j].name == n) =~= Set::<Seq<char>>::empty());
    while i < env.len()
        invariant
            i <= env@.len(),
            E == decls_view(env@),
            P == value_views(prelim@),
            value_views(available@) == P.restrict(
                Set::new(|n: Seq<char>| exists|j: int| 0 <= j < i && #[trigger] E[j].name == n),
            ).union_prefer_right(A0),
        decreases env@.len() - i,
    {
        let ghost n = env@[i as int].name@;
        assert(E[i as int].name == n);
        let ghost before = value_views(available@);
        let ghost S1 = Set::new(|q: Seq<char>| exists|j: int| 0 <= j < i + 1 && #[trigger] E[j].name == q);
        let ghost S0 = Set::new(|q: Seq<char>| exists|j: int| 0 <= j < i && #[trigger] E[j].name == q);
        assert(S1 =~= S0.insert(n)) by {
            assert forall|q: Seq<char>| S1.contains(q) implies S0.insert(n).contains(q) by {
                let j = choose|j: int| 0 <= j < i + 1 && #[trigger] E[j].name == q;
                if j < i {
                    assert(S0.contains(q));
                }
            }
            assert forall|q: Seq<char>| S0.insert(n).contains(q) implies S1.contains(q) by {
                if q == n {
                    assert(E[i as int].name == q);
                } else {
                    let j = choose|j: int| 0 <= j < i && #[trigger] E[j].name == q;
                    assert(E[j].name == q && 0 <= j < i + 1);
                }
            }
        }
        let ghost tgt = P.restrict(S1).union_prefer_right(A0);
        assert(before == P.restrict(S0).union_prefer_right(A0));
        match prelim.get(env[i].name.as_str()) {
            Some(v) => {
                assert(P.contains_key(n) && P[n] == v@);
                if !available.contains_key(env[i].name.as_str()) {
                    assert(!before.contains_key(n));
                    assert(!A0.contains_key(n));
                    available.insert(env[i].name.clone(), v.duplicate());
                    assert(value_views(available@) =~= before.insert(n, v@));
                    assert(value_views(available@) =~= tgt);
                } else {
                    assert(before.contains_key(n));
                    assert(value_views(available@) =~= tgt);
                }
            },
            None => {
                assert(!P.contains_key(n));
                assert(value_views(available@) =~= tgt);
            },
        }
        i = i + 1;
    }
    assert(Set::new(|n: Seq<char>| exists|j: int| 0 <= j < env@.len() && #[trigger] E[j].name == n) =~= decl_names(E));
    Ok(Resolved { merged, env, imports: is, consts, available })
}

} // verus!
