//! Constants that imported templates export, keyed `stem.NAME`, and the
//! namespaces that make `{{ stem.EnumType.Variant }}` expressions work.
use std::sync::Arc;

use vstd::prelude::*;

use super::decls::{decl_view, decls_view, lemma_fields_view_len, lemma_variants_view, value_views, DeclV};
use super::resolve::{defaults_map, insert_defaults, merge_types};
use super::{Frontmatter, ImportedNamespace};
use crate::text::{chars_of, push_char, same_chars};
use crate::types::{
    lists_types, type_views, variants_view, EnumVariant, TypeMap, TypeV, VarType, VariantV,
};
use crate::value::{
    enum_tag_key, enum_tag_key_string, enum_variants_key, enum_variants_key_string, lists_entries,
    values_view, Value, ValueMap, ValueV,
};

verus! {

// ---------------------------------------------------------------------------
// Enum namespaces
// ---------------------------------------------------------------------------
/// The entry that an enum namespace holds for a variant: its name for a
/// unit variant, else a struct that tags the variant.
pub open spec fn variant_entry(v: ValueV, var: VariantV) -> bool {
    if var.fields.len() == 0 {
        v == ValueV::Str(var.name)
    } else {
        v matches ValueV::Struct(t) && value_views(t) == Map::<Seq<char>, ValueV>::empty().insert(
            enum_tag_key(),
            ValueV::Str(var.name),
        )
    }
}

/// `i` is the last position of its variant name among `vs`.
pub open spec fn last_of_name(vs: Seq<VariantV>, i: int) -> bool {
    forall|j: int| i < j < vs.len() ==> #[trigger] vs[j].name != vs[i].name
}

/// The names of the variants, as string values.
pub open spec fn variant_names(vs: Seq<VariantV>) -> Seq<ValueV> {
    vs.map_values(|x: VariantV| ValueV::Str(x.name))
}

/// The entries of an enum namespace for the variants `vs`, apart from the
/// list of variant names: one entry per variant name, made from the last
/// variant with that name.
pub open spec fn variant_entries(vm: Map<Seq<char>, ValueV>, vs: Seq<VariantV>) -> bool {
    &&& forall|k: Seq<char>|
        k != enum_variants_key() ==> (#[trigger] vm.contains_key(k) <==> exists|i: int|
            0 <= i < vs.len() && #[trigger] vs[i].name == k)
    &&& forall|i: int|
        0 <= i < vs.len() && #[trigger] vs[i].name != enum_variants_key() && last_of_name(vs, i)
            ==> variant_entry(vm[vs[i].name], vs[i])
}

/// `v` is the namespace of an enum with variants `vs`: a struct with an
/// entry per variant name and, under `__variants__`, the list of the
/// variant names in order.
pub open spec fn enum_namespace(v: ValueV, vs: Seq<VariantV>) -> bool {
    v matches ValueV::Struct(m) && {
        let vm = value_views(m);
        &&& vm.contains_key(enum_variants_key())
        &&& vm[enum_variants_key()] == ValueV::List(variant_names(vs))
        &&& variant_entries(vm, vs)
    }
}

/// The namespace value of an enum with variants `vs`.
pub fn enum_namespace_value(vs: &Vec<EnumVariant>) -> (r: Value)
    ensures
        enum_namespace(r@, variants_view(vs@)),
{
    let ghost V = variants_view(vs@);
    proof {
        lemma_variants_view(vs@);
    }
    let mut m = ValueMap::new();
    let mut names: Vec<Value> = Vec::new();
    let mut i: usize = 0;
    while i < vs.len()
        invariant
            i <= vs@.len(),
            V == variants_view(vs@),
            V.len() == vs@.len(),
            forall|j: int|
                0 <= j < vs@.len() ==> (#[trigger] V[j]).name == vs@[j].name@ && V[j].fields
                    == crate::types::fields_view(vs@[j].fields@),
            values_view(names@) == variant_names(V.take(i as int)),
            variant_entries(value_views(m@), V.take(i as int)),
        decreases vs@.len() - i,
    {
        let ghost T = V.take(i as int);
        let ghost T1 = V.take(i + 1);
        let ghost before = value_views(m@);
        let name = vs[i].name.clone();
        proof {
            lemma_fields_view_len(vs@[i as int].fields@);
        }
        let entry = if vs[i].fields.len() == 0 {
            Value::Str(name.clone())
        } else {
            let mut p = ValueMap::new();
            p.insert(enum_tag_key_string(), Value::Str(name.clone()));
            assert(value_views(p@) =~= Map::<Seq<char>, ValueV>::empty().insert(
                enum_tag_key(),
                ValueV::Str(name@),
            ));
            Value::Struct(Arc::new(p))
        };
        assert(variant_entry(entry@, V[i as int]));
        m.insert(name.clone(), entry);
        let ghost names_before = names@;
        let ghost nv = name@;
        assert(nv == V[i as int].name);
        names.push(Value::Str(name));
        assert(names@.drop_last() == names_before);
        assert(names@.last()@ == ValueV::Str(nv));
        assert(values_view(names@) == values_view(names_before).push(ValueV::Str(V[i as int].name)));
        assert(variant_names(T1) =~= variant_names(T).push(ValueV::Str(V[i as int].name)));
        assert(T1.drop_last() =~= T);
        assert(value_views(m@) =~= before.insert(V[i as int].name, entry@));
        assert(variant_entries(value_views(m@), T1)) by {
            assert forall|k: Seq<char>| k != enum_variants_key() implies (#[trigger] value_views(
                m@,
            ).contains_key(k) <==> exists|j: int| 0 <= j < T1.len() && #[trigger] T1[j].name == k) by {
                if k == V[i as int].name {
                    assert(T1[i as int].name == k);
                } else if before.contains_key(k) {
                    let j = choose|j: int| 0 <= j < T.len() && #[trigger] T[j].name == k;
                    assert(T1[j].name == k);
                } else {
                    if exists|j: int| 0 <= j < T1.len() && #[trigger] T1[j].name == k {
                        let j = choose|j: int| 0 <= j < T1.len() && #[trigger] T1[j].name == k;
                        assert(T[j].name == k);
                    }
                }
            }
            assert forall|j: int|
                0 <= j < T1.len() && #[trigger] T1[j].name != enum_variants_key() && last_of_name(
                    T1,
                    j,
                ) implies variant_entry(value_views(m@)[T1[j].name], T1[j]) by {
                if j < i {
                    assert(T1[i as int].name != T1[j].name);
                    assert(T[j] == T1[j]);
                    assert(last_of_name(T, j)) by {
                        assert forall|q: int| j < q < T.len() implies #[trigger] T[q].name
                            != T[j].name by {
                            assert(T1[q] == T[q]);
                        }
                    }
                }
            }
        }
        i = i + 1;
    }
    assert(V.take(vs@.len() as int) =~= V);
    let ghost before = value_views(m@);
    m.insert(enum_variants_key_string(), Value::List(Arc::new(names)));
    assert(value_views(m@) =~= before.insert(enum_variants_key(), ValueV::List(variant_names(V))));
    Value::Struct(Arc::new(m))
}

// ---------------------------------------------------------------------------
// Keys `stem.NAME`
// ---------------------------------------------------------------------------
/// `stem.name`.
pub open spec fn qualified(stem: Seq<char>, name: Seq<char>) -> Seq<char> {
    stem + seq!['.'] + name
}

/// `k` is `stem.` followed by a name.
pub open spec fn under(k: Seq<char>, stem: Seq<char>) -> bool {
    k.len() > stem.len() && k.take(stem.len() as int) == stem && k[stem.len() as int] == '.'
}

/// The name after `stem.` in `k`.
pub open spec fn member(k: Seq<char>, stem: Seq<char>) -> Seq<char> {
    k.skip(stem.len() + 1int)
}

/// A stem that no dot splits.
pub open spec fn plain_stem(stem: Seq<char>) -> bool {
    forall|i: int| 0 <= i < stem.len() ==> #[trigger] stem[i] != '.'
}

pub proof fn lemma_qualified(stem: Seq<char>, name: Seq<char>)
    ensures
        under(qualified(stem, name), stem),
        member(qualified(stem, name), stem) == name,
{
    assert(qualified(stem, name).take(stem.len() as int) =~= stem);
    assert(member(qualified(stem, name), stem) =~= name);
}

/// A key under `stem` is `stem.` followed by its member name.
pub proof fn lemma_under_qualified(k: Seq<char>, stem: Seq<char>)
    requires
        under(k, stem),
    ensures
        k == qualified(stem, member(k, stem)),
{
    assert(k =~= qualified(stem, member(k, stem)));
}

/// No key lies under two different plain stems.
pub proof fn lemma_under_unique(k: Seq<char>, a: Seq<char>, b: Seq<char>)
    requires
        plain_stem(a),
        plain_stem(b),
        under(k, a),
        under(k, b),
    ensures
        a == b,
{
    if a.len() < b.len() {
        assert(b[a.len() as int] == k.take(b.len() as int)[a.len() as int]);
    } else if b.len() < a.len() {
        assert(a[b.len() as int] == k.take(a.len() as int)[b.len() as int]);
    } else {
        assert(a =~= b);
    }
}

// ---------------------------------------------------------------------------
// What a namespace exports
// ---------------------------------------------------------------------------
pub open spec fn ns_consts(ns: ImportedNamespace) -> Map<Seq<char>, ValueV> {
    value_views(ns.consts@)
}

pub open spec fn ns_types(ns: ImportedNamespace) -> Map<Seq<char>, TypeV> {
    type_views(ns.type_aliases@)
}

/// `n` is an enum type alias of the namespace.
pub open spec fn enum_alias(ns: ImportedNamespace, n: Seq<char>) -> bool {
    ns_types(ns).contains_key(n) && ns_types(ns)[n] is Enum
}

/// The namespace exports `n`: a constant, or an enum type alias.
pub open spec fn exports(ns: ImportedNamespace, n: Seq<char>) -> bool {
    ns_consts(ns).contains_key(n) || enum_alias(ns, n)
}

/// The namespace exports `n` as an enum type namespace (no constant has that name).
pub open spec fn exports_enum(ns: ImportedNamespace, n: Seq<char>) -> bool {
    !ns_consts(ns).contains_key(n) && enum_alias(ns, n)
}

/// `v` is what the namespace exports under `n`: the constant, else the
/// enum type namespace.
pub open spec fn export_value(ns: ImportedNamespace, n: Seq<char>, v: ValueV) -> bool {
    if ns_consts(ns).contains_key(n) {
        v == ns_consts(ns)[n]
    } else {
        match ns_types(ns)[n] {
            TypeV::Enum(vs) => enum_namespace(v, vs),
            _ => false,
        }
    }
}

/// The keys of `m` under `stem` are exactly the exports of `ns`, with their values.
pub open spec fn holds_exports(m: Map<Seq<char>, ValueV>, stem: Seq<char>, ns: ImportedNamespace) -> bool {
    forall|k: Seq<char>|
        under(k, stem) ==> (#[trigger] m.contains_key(k) <==> exports(ns, member(k, stem))) && (
        m.contains_key(k) ==> export_value(ns, member(k, stem), m[k]))
}

/// Stems that no dot splits, each used once.
pub open spec fn distinct_plain_stems(rs: Seq<(String, ImportedNamespace)>) -> bool {
    &&& forall|i: int| 0 <= i < rs.len() ==> plain_stem(#[trigger] rs[i].0@)
    &&& forall|i: int, j: int| 0 <= i < j < rs.len() ==> #[trigger] rs[i].0@ != #[trigger] rs[j].0@
}

/// `m` holds exactly the exports of the imports `rs`, keyed `stem.NAME`.
pub open spec fn imported_consts_of(rs: Seq<(String, ImportedNamespace)>, m: Map<Seq<char>, ValueV>) -> bool {
    &&& forall|i: int| 0 <= i < rs.len() ==> holds_exports(m, #[trigger] rs[i].0@, rs[i].1)
    &&& forall|k: Seq<char>|
        #[trigger] m.contains_key(k) ==> exists|i: int| 0 <= i < rs.len() && under(k, #[trigger] rs[i].0@)
}

/// The keys of enum type namespaces among the exports of `rs`.
pub open spec fn enum_key_of(rs: Seq<(String, ImportedNamespace)>, k: Seq<char>) -> bool {
    exists|i: int| 0 <= i < rs.len() && under(k, #[trigger] rs[i].0@) && exports_enum(rs[i].1, member(k, rs[i].0@))
}

pub open spec fn string_views(v: Seq<String>) -> Seq<Seq<char>> {
    v.map_values(|s: String| s@)
}

/// `keys` lists each enum type namespace key of `rs` once.
pub open spec fn lists_enum_keys(rs: Seq<(String, ImportedNamespace)>, keys: Seq<Seq<char>>) -> bool {
    &&& keys.no_duplicates()
    &&& forall|k: Seq<char>| #[trigger] keys.contains(k) <==> enum_key_of(rs, k)
}

// ---------------------------------------------------------------------------
// Injection
// ---------------------------------------------------------------------------
/// `stem.name` as a `String`.
fn qualified_string(stem: &String, name: &String) -> (r: String)
    ensures
        r@ == qualified(stem@, name@),
{
    let mut key = stem.clone();
    push_char(&mut key, '.');
    key.append(name.as_str());
    key
}

/// Adds the exports of one namespace to `m` under `stem.`, and the keys of
/// its enum type namespaces to `keys`.
fn inject_namespace(m: &mut ValueMap, keys: &mut Vec<String>, stem: &String, ns: &ImportedNamespace)
    requires
        plain_stem(stem@),
        forall|k: Seq<char>| under(k, stem@) ==> !(#[trigger] old(m)@.contains_key(k)),
        forall|k: Seq<char>| #[trigger] string_views(old(keys)@).contains(k) ==> !under(k, stem@),
        string_views(old(keys)@).no_duplicates(),
    ensures
        holds_exports(value_views(final(m)@), stem@, *ns),
        forall|k: Seq<char>|
            !under(k, stem@) ==> (#[trigger] final(m)@.contains_key(k) == old(m)@.contains_key(k))
                && (old(m)@.contains_key(k) ==> final(m)@[k] == old(m)@[k]),
        string_views(final(keys)@).no_duplicates(),
        forall|k: Seq<char>|
            #[trigger] string_views(final(keys)@).contains(k) <==> (string_views(old(keys)@).contains(k)
                || (under(k, stem@) && exports_enum(*ns, member(k, stem@)))),
{
    let ghost S = stem@;
    let ghost M0 = m@;
    let ghost K0 = string_views(keys@);
    let ghost C = ns.consts@;
    let ghost T = ns.type_aliases@;
    let ces = ns.consts.entries();
    let mut i: usize = 0;
    while i < ces.len()
        invariant
            i <= ces@.len(),
            S == stem@,
            C == ns.consts@,
            lists_entries(C, ces@),
            forall|k: Seq<char>|
                under(k, S) ==> (#[trigger] m@.contains_key(k) <==> exists|j: int|
                    0 <= j < i && #[trigger] ces@[j].0@ == member(k, S)) && (m@.contains_key(k)
                    ==> m@[k] == C[member(k, S)]),
            forall|k: Seq<char>|
                !under(k, S) ==> (#[trigger] m@.contains_key(k) == M0.contains_key(k)) && (
                M0.contains_key(k) ==> m@[k] == M0[k]),
        decreases ces@.len() - i,
    {
        let key = qualified_string(stem, ces[i].0);
        proof {
            lemma_qualified(S, ces@[i as int].0@);
        }
        let ghost before = m@;
        let ghost kq = key@;
        let val = ces[i].1.duplicate();
        m.insert(key, val);
        assert(kq == qualified(S, ces@[i as int].0@));
        assert(m@ == before.insert(kq, *ces@[i as int].1));
        proof {
            assert forall|k: Seq<char>| !under(k, S) implies (#[trigger] m@.contains_key(k) == M0.contains_key(k)) && (
                M0.contains_key(k) ==> m@[k] == M0[k]) by {
                assert(k != qualified(S, ces@[i as int].0@));
            }
            assert forall|k: Seq<char>| under(k, S) implies (#[trigger] m@.contains_key(k) <==> exists|j: int|
                0 <= j < i + 1 && #[trigger] ces@[j].0@ == member(k, S)) && (m@.contains_key(k) ==> m@[k]
                == C[member(k, S)]) by {
                if k == key@ {
                    assert(ces@[i as int].0@ == member(k, S));
                } else {
                    if exists|j: int| 0 <= j < i + 1 && #[trigger] ces@[j].0@ == member(k, S) {
                        let j = choose|j: int| 0 <= j < i + 1 && #[trigger] ces@[j].0@ == member(k, S);
                        if j == i {
                            lemma_under_qualified(k, S);
                        } else {
                            assert(exists|jj: int| 0 <= jj < i && #[trigger] ces@[jj].0@ == member(k, S));
                        }
                    }
                }
            }
        }
        i = i + 1;
    }
    assert forall|k: Seq<char>| under(k, S) implies (#[trigger] m@.contains_key(k) <==> C.contains_key(member(k, S))) by {
        if C.contains_key(member(k, S)) {
            let j = choose|j: int| 0 <= j < ces@.len() && #[trigger] ces@[j].0@ == member(k, S);
        }
    }
    let ghost M1 = m@;
    let tes = ns.type_aliases.entries();
    let mut i: usize = 0;
    while i < tes.len()
        invariant
            i <= tes@.len(),
            S == stem@,
            C == ns.consts@,
            T == ns.type_aliases@,
            lists_types(T, tes@),
            forall|k: Seq<char>|
                under(k, S) ==> (#[trigger] M1.contains_key(k) <==> C.contains_key(member(k, S))),
            forall|k: Seq<char>|
                under(k, S) ==> (#[trigger] m@.contains_key(k) <==> (C.contains_key(member(k, S))
                    || exists|j: int|
                    0 <= j < i && #[trigger] tes@[j].0@ == member(k, S) && tes@[j].1 is Enum)),
            forall|k: Seq<char>|
                under(k, S) && #[trigger] m@.contains_key(k) ==> if C.contains_key(member(k, S)) {
                    m@[k] == C[member(k, S)]
                } else {
                    T[member(k, S)] matches VarType::Enum(vs) && enum_namespace(
                        m@[k]@,
                        variants_view(vs@),
                    )
                },
            forall|k: Seq<char>|
                !under(k, S) ==> (#[trigger] m@.contains_key(k) == M0.contains_key(k)) && (
                M0.contains_key(k) ==> m@[k] == M0[k]),
            string_views(keys@).no_duplicates(),
            forall|k: Seq<char>|
                #[trigger] string_views(keys@).contains(k) <==> (K0.contains(k) || (under(k, S)
                    && !C.contains_key(member(k, S)) && exists|j: int|
                    0 <= j < i && #[trigger] tes@[j].0@ == member(k, S) && tes@[j].1 is Enum)),
            forall|k: Seq<char>| #[trigger] K0.contains(k) ==> !under(k, S),
        decreases tes@.len() - i,
    {
        let ghost mb = m@;
        let ghost kb = string_views(keys@);
        let ghost nm = tes@[i as int].0@;
        match tes[i].1 {
            VarType::Enum(vs) => {
                let key = qualified_string(stem, tes[i].0);
                proof {
                    lemma_qualified(S, nm);
                }
                if !m.contains_key(key.as_str()) {
                    m.insert(key.clone(), enum_namespace_value(vs));
                    keys.push(key);
                    assert(string_views(keys@) =~= kb.push(qualified(S, nm)));
                    assert(!kb.contains(qualified(S, nm)));
                }
            },
            _ => {},
        }
        proof {
            assert forall|k: Seq<char>| under(k, S) implies (#[trigger] m@.contains_key(k) <==> (
                C.contains_key(member(k, S)) || exists|j: int|
                0 <= j < i + 1 && #[trigger] tes@[j].0@ == member(k, S) && tes@[j].1 is Enum)) by {
                lemma_under_qualified(k, S);
                if exists|j: int| 0 <= j < i + 1 && #[trigger] tes@[j].0@ == member(k, S) && tes@[j].1 is Enum {
                    let j = choose|j: int| 0 <= j < i + 1 && #[trigger] tes@[j].0@ == member(k, S) && tes@[j].1 is Enum;
                    if j < i {
                        assert(exists|jj: int| 0 <= jj < i && #[trigger] tes@[jj].0@ == member(k, S) && tes@[jj].1 is Enum);
                    }
                }
                if k == qualified(S, nm) {
                    assert(member(k, S) == nm);
                }
            }
            assert forall|k: Seq<char>| #[trigger] string_views(keys@).contains(k) <==> (K0.contains(k) || (under(k, S)
                && !C.contains_key(member(k, S)) && exists|j: int|
                0 <= j < i + 1 && #[trigger] tes@[j].0@ == member(k, S) && tes@[j].1 is Enum)) by {
                let lhs = string_views(keys@).contains(k);
                let rhs_old = K0.contains(k) || (under(k, S) && !C.contains_key(member(k, S)) && exists|j: int|
                    0 <= j < i && #[trigger] tes@[j].0@ == member(k, S) && tes@[j].1 is Enum);
                assert(kb.contains(k) == rhs_old);
                if kb.contains(k) {
                    let idx = choose|idx: int| 0 <= idx < kb.len() && kb[idx] == k;
                    assert(string_views(keys@)[idx] == k);
                    assert(string_views(keys@).contains(k));
                    if !K0.contains(k) {
                        let j = choose|j: int| 0 <= j < i && #[trigger] tes@[j].0@ == member(k, S) && tes@[j].1 is Enum;
                        assert(exists|jj: int| 0 <= jj < i + 1 && #[trigger] tes@[jj].0@ == member(k, S) && tes@[jj].1 is Enum);
                    }
                } else if lhs {
                    assert(k == qualified(S, nm));
                    lemma_qualified(S, nm);
                    assert(tes@[i as int].0@ == member(k, S));
                    assert(!mb.contains_key(k));
                    assert(!C.contains_key(member(k, S)));
                    assert(tes@[i as int].1 is Enum);
                    assert(exists|jj: int| 0 <= jj < i + 1 && #[trigger] tes@[jj].0@ == member(k, S) && tes@[jj].1 is Enum);
                } else {
                    if under(k, S) && !C.contains_key(member(k, S)) && exists|j: int|
                        0 <= j < i + 1 && #[trigger] tes@[j].0@ == member(k, S) && tes@[j].1 is Enum {
                        let j = choose|j: int| 0 <= j < i + 1 && #[trigger] tes@[j].0@ == member(k, S) && tes@[j].1 is Enum;
                        if j < i {
                            assert(exists|jj: int| 0 <= jj < i && #[trigger] tes@[jj].0@ == member(k, S) && tes@[jj].1 is Enum);
                        } else {
                            lemma_under_qualified(k, S);
                            assert(k == qualified(S, nm));
                            if mb.contains_key(k) {
                                let jj = choose|jj: int| 0 <= jj < i && #[trigger] tes@[jj].0@ == member(k, S) && tes@[jj].1 is Enum;
                                assert(tes@[jj].0@ != tes@[i as int].0@);
                            } else {
                                assert(string_views(keys@)[kb.len() as int] == k);
                            }
                        }
                    }
                }
            }
            assert forall|k: Seq<char>| under(k, S) && #[trigger] m@.contains_key(k) implies if C.contains_key(member(k, S)) {
                    m@[k] == C[member(k, S)]
                } else {
                    T[member(k, S)] matches VarType::Enum(vs) && enum_namespace(
                        m@[k]@,
                        variants_view(vs@),
                    )
                } by {
                if k == qualified(S, nm) {
                    assert(member(k, S) == nm);
                }
            }
        }
        i = i + 1;
    }
    proof {
        assert(M0 == old(m)@);
        assert forall|k: Seq<char>| !under(k, S) implies (#[trigger] m@.contains_key(k) == old(m)@.contains_key(k))
            && (old(m)@.contains_key(k) ==> m@[k] == old(m)@[k]) by {}
        let fm = value_views(m@);
        assert forall|k: Seq<char>| under(k, S) implies (#[trigger] fm.contains_key(k) <==> exports(*ns, member(k, S)))
            && (fm.contains_key(k) ==> export_value(*ns, member(k, S), fm[k])) by {
            let n = member(k, S);
            if T.contains_key(n) && T[n] is Enum {
                let j = choose|j: int| 0 <= j < tes@.len() && #[trigger] tes@[j].0@ == n;
            }
            if exists|j: int| 0 <= j < tes@.len() && #[trigger] tes@[j].0@ == n && tes@[j].1 is Enum {
                let j = choose|j: int| 0 <= j < tes@.len() && #[trigger] tes@[j].0@ == n && tes@[j].1 is Enum;
                assert(T[n] == *tes@[j].1);
            }
        }
        assert forall|k: Seq<char>| #[trigger] string_views(keys@).contains(k) <==> (K0.contains(k)
                || (under(k, S) && exports_enum(*ns, member(k, S)))) by {
            let n = member(k, S);
            if under(k, S) && exports_enum(*ns, n) {
                let j = choose|j: int| 0 <= j < tes@.len() && #[trigger] tes@[j].0@ == n;
            }
            if exists|j: int| 0 <= j < tes@.len() && #[trigger] tes@[j].0@ == n && tes@[j].1 is Enum {
                let j = choose|j: int| 0 <= j < tes@.len() && #[trigger] tes@[j].0@ == n && tes@[j].1 is Enum;
                assert(T[n] == *tes@[j].1);
            }
        }
    }
}

/// Adds the exports of the imported namespaces `resolved` to `consts`,
/// keyed `stem.NAME`: each constant, and for each enum type alias that no
/// constant shadows, an enum namespace whose key goes to `keys`.
pub fn inject_imported_consts(
    consts: &mut ValueMap,
    keys: &mut Vec<String>,
    resolved: &Vec<(String, ImportedNamespace)>,
)
    requires
        distinct_plain_stems(resolved@),
        old(consts)@ == crate::value::no_entries(),
        old(keys)@.len() == 0,
    ensures
        imported_consts_of(resolved@, value_views(final(consts)@)),
        lists_enum_keys(resolved@, string_views(final(keys)@)),
{
    let ghost R = resolved@;
    assert(string_views(keys@) =~= Seq::<Seq<char>>::empty());
    let mut i: usize = 0;
    while i < resolved.len()
        invariant
            i <= R.len(),
            R == resolved@,
            distinct_plain_stems(R),
            imported_consts_of(R.take(i as int), value_views(consts@)),
            lists_enum_keys(R.take(i as int), string_views(keys@)),
        decreases R.len() - i,
    {
        let ghost S = R[i as int].0@;
        let ghost P = R.take(i as int);
        let ghost M0 = consts@;
        let ghost K0 = string_views(keys@);
        proof {
            assert forall|k: Seq<char>| under(k, S) implies !(#[trigger] consts@.contains_key(k)) by {
                if consts@.contains_key(k) {
                    assert(value_views(consts@).contains_key(k));
                    let j = choose|j: int| 0 <= j < P.len() && under(k, #[trigger] P[j].0@);
                    assert(P[j] == R[j]);
                    lemma_under_unique(k, S, R[j].0@);
                }
            }
            assert forall|k: Seq<char>| #[trigger] K0.contains(k) implies !under(k, S) by {
                if under(k, S) {
                    let j = choose|j: int| 0 <= j < P.len() && under(k, #[trigger] P[j].0@) && exports_enum(P[j].1, member(k, P[j].0@));
                    assert(P[j] == R[j]);
                    lemma_under_unique(k, S, R[j].0@);
                }
            }
        }
        inject_namespace(consts, keys, &resolved[i].0, &resolved[i].1);
        proof {
            let Q = R.take(i + 1);
            let fm = value_views(consts@);
            assert forall|j: int| 0 <= j < Q.len() implies holds_exports(fm, #[trigger] Q[j].0@, Q[j].1) by {
                if j < i {
                    assert(Q[j] == P[j]);
                    assert(holds_exports(value_views(M0), P[j].0@, P[j].1));
                    assert forall|k: Seq<char>| under(k, Q[j].0@) implies (#[trigger] fm.contains_key(k) <==> exports(Q[j].1, member(k, Q[j].0@)))
                        && (fm.contains_key(k) ==> export_value(Q[j].1, member(k, Q[j].0@), fm[k])) by {
                        if under(k, S) {
                            lemma_under_unique(k, S, Q[j].0@);
                        }
                        assert(value_views(M0).contains_key(k) == M0.contains_key(k));
                    }
                }
            }
            assert forall|k: Seq<char>| #[trigger] fm.contains_key(k) implies exists|j: int| 0 <= j < Q.len() && under(k, #[trigger] Q[j].0@) by {
                if under(k, S) {
                    assert(Q[i as int].0@ == S);
                } else {
                    assert(value_views(M0).contains_key(k));
                    let j = choose|j: int| 0 <= j < P.len() && under(k, #[trigger] P[j].0@);
                    assert(Q[j] == P[j]);
                }
            }
            assert forall|k: Seq<char>| #[trigger] string_views(keys@).contains(k) <==> enum_key_of(Q, k) by {
                if K0.contains(k) {
                    let j = choose|j: int| 0 <= j < P.len() && under(k, #[trigger] P[j].0@) && exports_enum(P[j].1, member(k, P[j].0@));
                    assert(Q[j] == P[j]);
                }
                if under(k, S) && exports_enum(R[i as int].1, member(k, S)) {
                    assert(Q[i as int] == R[i as int]);
                }
                if enum_key_of(Q, k) {
                    let j = choose|j: int| 0 <= j < Q.len() && under(k, #[trigger] Q[j].0@) && exports_enum(Q[j].1, member(k, Q[j].0@));
                    if j < i {
                        assert(Q[j] == P[j]);
                    }
                }
            }
        }
        i = i + 1;
    }
    assert(R.take(R.len() as int) =~= R);
}


// ---------------------------------------------------------------------------
// The namespace a template exports
// ---------------------------------------------------------------------------
/// The types that declarations give their names; a later declaration
/// replaces an earlier one with the same name.
pub open spec fn declared_types(ds: Seq<DeclV>) -> Map<Seq<char>, TypeV>
    decreases ds.len(),
{
    if ds.len() == 0 {
        Map::empty()
    } else {
        declared_types(ds.drop_last()).insert(ds.last().name, ds.last().ty)
    }
}

/// The namespace that a parsed template exports to the templates that import
/// it: its type aliases, the types of its parameters and the values of its
/// constants.
pub fn exported_namespace(fm: &Frontmatter) -> (r: ImportedNamespace)
    ensures
        type_views(r.type_aliases@) == type_views(fm.type_aliases@),
        type_views(r.param_types@) == declared_types(decls_view(fm.declarations@)),
        value_views(r.consts@) == defaults_map(decls_view(fm.consts@)),
{
    let mut type_aliases = TypeMap::new();
    merge_types(&mut type_aliases, &fm.type_aliases);
    assert(type_views(type_aliases@) =~= type_views(fm.type_aliases@));
    let ghost D = decls_view(fm.declarations@);
    let mut param_types = TypeMap::new();
    assert(type_views(param_types@) =~= declared_types(D.take(0)));
    let mut i: usize = 0;
    while i < fm.declarations.len()
        invariant
            i <= fm.declarations@.len(),
            D == decls_view(fm.declarations@),
            type_views(param_types@) == declared_types(D.take(i as int)),
        decreases fm.declarations@.len() - i,
    {
        assert(D.take(i + 1).drop_last() =~= D.take(i as int));
        assert(D.take(i + 1).last() == decl_view(fm.declarations@[i as int]));
        let ghost before = type_views(param_types@);
        let d = &fm.declarations[i];
        param_types.insert(d.name.clone(), d.var_type.duplicate());
        assert(type_views(param_types@) =~= before.insert(d.name@, d.var_type@));
        i = i + 1;
    }
    assert(D.take(fm.declarations@.len() as int) =~= D);
    let mut consts = ValueMap::new();
    insert_defaults(&mut consts, &fm.consts);
    assert(value_views(consts@) =~= defaults_map(decls_view(fm.consts@)));
    ImportedNamespace { type_aliases, param_types, consts }
}


/// Whether no stem of `rs` holds a dot and no two stems are equal: what
/// [`super::parse_frontmatter_with_imports`] asks of its resolved imports.
pub fn has_distinct_plain_stems(rs: &Vec<(String, ImportedNamespace)>) -> (r: bool)
    ensures
        r == distinct_plain_stems(rs@),
{
    let mut i: usize = 0;
    while i < rs.len()
        invariant
            i <= rs@.len(),
            forall|a: int| 0 <= a < i ==> plain_stem(#[trigger] rs@[a].0@),
            forall|a: int, b: int| 0 <= a < b < i ==> #[trigger] rs@[a].0@ != #[trigger] rs@[b].0@,
        decreases rs@.len() - i,
    {
        let stem = chars_of(rs[i].0.as_str());
        let n = stem.len();
        let mut c: usize = 0;
        while c < n
            invariant
                i < rs@.len(),
                stem@ == rs@[i as int].0@,
                n == stem@.len(),
                c <= n,
                forall|q: int| 0 <= q < c ==> #[trigger] stem@[q] != '.',
            decreases n - c,
        {
            if stem[c] == '.' {
                return false;
            }
            c = c + 1;
        }
        let mut j: usize = 0;
        while j < i
            invariant
                i < rs@.len(),
                j <= i,
                stem@ == rs@[i as int].0@,
                forall|a: int| 0 <= a < j ==> #[trigger] rs@[a].0@ != rs@[i as int].0@,
            decreases i - j,
        {
            if same_chars(chars_of(rs[j].0.as_str()).as_slice(), stem.as_slice()) {
                return false;
            }
            j = j + 1;
        }
        i = i + 1;
    }
    true
}

} // verus!
