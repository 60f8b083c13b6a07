//! Properties of the library that span several functions or every input.
use vstd::prelude::*;

use crate::cache::evict_count;
use crate::compiled::analysis::{arms_walk, branches_walk, cond_refs, expr_refs, label_refs, interp_refs_from, path_root, seg_walk, segs_walk};
use crate::compiled::condition::{comparison_from, comparison_ops, operand_of, primary, CondV, OperandV};
use crate::compiled::{ComparisonOp, CompiledExpr, CompiledPath, Condition, MatchArm, Segment};
use crate::frontmatter::decls::{default_value_of, item_value};
use crate::frontmatter::params::parse_type;
use crate::scan::{lemma_scan, top_find};
use crate::frontmatter::block::{extract_block, has_opener};
use crate::frontmatter::decls::{declarations, decls_from, DeclV};
use crate::frontmatter::lists::list_items;
use crate::frontmatter::resolve::{env_decl, env_decls, resolution};
use crate::frontmatter::sections::{expr_open, interpolate_from};
use crate::frontmatter::validation::{all_names, collision_rules, first_repeat_from};
use crate::frontmatter::{frontmatter_of, imports_requested, sections_from, no_sections, FrontmatterV, ImportedNamespace};
use crate::text::{contains, find_char_from, find_from, is_ws, lemma_find_char_from, lemma_find_from, occurs_at, trim};
use crate::types::TypeV;
use crate::value::{map_of_pairs, truthy, Value, ValueV};

verus! {

// ---------------------------------------------------------------------------
// Context and struct values
// ---------------------------------------------------------------------------
/// Reading a context after setting a variable gives the value set, and
/// leaves every other variable as it was.
pub proof fn law_get_after_set(c: Map<Seq<char>, Value>, k: Seq<char>, v: Value, other: Seq<char>)
    ensures
        c.insert(k, v).contains_key(k),
        c.insert(k, v)[k] == v,
        other != k ==> c.insert(k, v).contains_key(other) == c.contains_key(other),
        other != k && c.contains_key(other) ==> c.insert(k, v)[other] == c[other],
{
}

/// The keys of a struct built from pairs are the keys of the pairs.
proof fn lemma_pairs_keys(pairs: Seq<(String, Value)>, k: Seq<char>)
    ensures
        map_of_pairs(pairs).contains_key(k) <==> exists|i: int|
            0 <= i < pairs.len() && #[trigger] pairs[i].0@ == k,
    decreases pairs.len(),
{
    if pairs.len() > 0 {
        let init = pairs.drop_last();
        lemma_pairs_keys(init, k);
        if exists|i: int| 0 <= i < init.len() && #[trigger] init[i].0@ == k {
            let i = choose|i: int| 0 <= i < init.len() && #[trigger] init[i].0@ == k;
            assert(pairs[i].0@ == k);
        }
        if exists|i: int| 0 <= i < pairs.len() && #[trigger] pairs[i].0@ == k {
            let i = choose|i: int| 0 <= i < pairs.len() && #[trigger] pairs[i].0@ == k;
            if i < init.len() {
                assert(init[i].0@ == k);
            }
        }
    }
}

/// The value under a key is that of the last pair with the key.
proof fn lemma_pairs_last(pairs: Seq<(String, Value)>, k: Seq<char>, i: int)
    requires
        0 <= i < pairs.len(),
        pairs[i].0@ == k,
        forall|j: int| i < j < pairs.len() ==> (#[trigger] pairs[j]).0@ != k,
    ensures
        map_of_pairs(pairs).contains_key(k),
        map_of_pairs(pairs)[k] == pairs[i].1,
    decreases pairs.len(),
{
    let init = pairs.drop_last();
    if i < pairs.len() - 1 {
        assert(pairs[pairs.len() - 1].0@ != k);
        assert forall|j: int| i < j < init.len() implies (#[trigger] init[j]).0@ != k by {
            assert(init[j] == pairs[j]);
        }
        lemma_pairs_last(init, k, i);
    }
}

/// A struct built from key/value pairs holds a key exactly when some pair
/// has it, and then the value of the last such pair.
pub proof fn law_last_pair_wins(pairs: Seq<(String, Value)>, k: Seq<char>, i: int)
    requires
        0 <= i < pairs.len(),
        pairs[i].0@ == k,
        forall|j: int| i < j < pairs.len() ==> (#[trigger] pairs[j]).0@ != k,
    ensures
        map_of_pairs(pairs)[k] == pairs[i].1,
        forall|q: Seq<char>|
            #[trigger] map_of_pairs(pairs).contains_key(q) <==> exists|j: int|
                0 <= j < pairs.len() && #[trigger] pairs[j].0@ == q,
{
    lemma_pairs_last(pairs, k, i);
    assert forall|q: Seq<char>|
        #[trigger] map_of_pairs(pairs).contains_key(q) <==> exists|j: int|
            0 <= j < pairs.len() && #[trigger] pairs[j].0@ == q by {
        lemma_pairs_keys(pairs, q);
    }
}

// ---------------------------------------------------------------------------
// Frontmatter
// ---------------------------------------------------------------------------
proof fn lemma_no_repeat(ns: Seq<Seq<char>>, j: int)
    requires
        0 <= j <= ns.len(),
        first_repeat_from(ns, j) is None,
    ensures
        forall|a: int, b: int| j <= b < ns.len() && 0 <= a < b ==> ns[a] != ns[b],
    decreases ns.len() - j,
{
    if j < ns.len() {
        lemma_no_repeat(ns, j + 1);
        assert forall|a: int| 0 <= a < j implies ns[a] != ns[j] by {
            assert(ns.take(j)[a] == ns[a]);
        }
    }
}

/// Every const declaration that reads has a value.
proof fn lemma_consts_valued(
    items: Seq<Seq<char>>,
    k: int,
    al: Map<Seq<char>, TypeV>,
    im: Map<Seq<char>, Map<Seq<char>, TypeV>>,
    consts: Map<Seq<char>, ValueV>,
    ds: Seq<DeclV>,
)
    requires
        decls_from(items, k, true, al, im, consts) == Ok::<Seq<DeclV>, crate::error::Fault>(ds),
    ensures
        forall|i: int| 0 <= i < ds.len() ==> (#[trigger] ds[i]).default is Some,
    decreases items.len() - k,
{
    if 0 <= k < items.len() {
        match crate::frontmatter::lists::decl_parts(items[k]) {
            Ok((name, tt, d)) => match crate::frontmatter::params::parse_type(tt, al, im) {
                Ok(tv) => {
                    let dv: Result<Option<ValueV>, crate::error::Fault> = match d {
                        None => Ok(None),
                        Some(text) => if text.len() == 0 {
                            Ok(None)
                        } else {
                            match crate::frontmatter::decls::default_value_of(name, text, tv, consts) {
                                Ok(v) => Ok(Some(v)),
                                Err(e) => Err(e),
                            }
                        },
                    };
                    match dv {
                        Ok(dflt) => {
                            let next = consts.insert(name, dflt->0);
                            match decls_from(items, k + 1, true, al, im, next) {
                                Ok(rest) => {
                                    lemma_consts_valued(items, k + 1, al, im, next, rest);
                                    assert forall|i: int| 0 <= i < ds.len() implies (#[trigger] ds[i]).default is Some by {
                                        if i > 0 {
                                            assert(ds[i] == rest[i - 1]);
                                        }
                                    }
                                },
                                Err(_) => {},
                            }
                        },
                        Err(_) => {},
                    }
                },
                Err(_) => {},
            },
            Err(_) => {},
        }
    }
}

/// Every resolved `env:` declaration has a value.
proof fn lemma_env_valued(ds: Seq<DeclV>, env: Seq<(Seq<char>, ValueV)>, k: int, out: Seq<DeclV>)
    requires
        env_decls(ds, env, k) == Ok::<Seq<DeclV>, crate::error::Fault>(out),
    ensures
        forall|i: int| 0 <= i < out.len() ==> (#[trigger] out[i]).default is Some,
    decreases ds.len() - k,
{
    if 0 <= k < ds.len() {
        match env_decl(ds[k], env) {
            Ok(d) => match env_decls(ds, env, k + 1) {
                Ok(rest) => {
                    lemma_env_valued(ds, env, k + 1, rest);
                    assert forall|i: int| 0 <= i < out.len() implies (#[trigger] out[i]).default is Some by {
                        if i > 0 {
                            assert(out[i] == rest[i - 1]);
                        }
                    }
                },
                Err(_) => {},
            },
            Err(_) => {},
        }
    }
}

/// A parsed frontmatter declares each name once across `params:`,
/// `consts:` and `env:`; every constant and every `env:` entry has a value.
pub proof fn law_parsed_frontmatter_well_formed(
    s: Seq<char>,
    allow_missing: bool,
    parent: Option<Map<Seq<char>, TypeV>>,
    env: Seq<(Seq<char>, ValueV)>,
    rs: Seq<(String, ImportedNamespace)>,
    imported: Map<Seq<char>, ValueV>,
    v: FrontmatterV,
    b: int,
)
    requires
        frontmatter_of(s, allow_missing, parent, env, rs, imported) == Ok::<
            (FrontmatterV, int),
            crate::error::Fault,
        >((v, b)),
    ensures
        all_names(v.declarations, v.consts, v.env).no_duplicates(),
        forall|i: int| 0 <= i < v.consts.len() ==> (#[trigger] v.consts[i]).default is Some,
        forall|i: int| 0 <= i < v.env.len() ==> (#[trigger] v.env[i]).default is Some,
{
    let ns = all_names(v.declarations, v.consts, v.env);
    match extract_block(s, allow_missing) {
        Err(_) => {},
        Ok((ls, b0)) => if allow_missing && !has_opener(s) {
            assert(ns =~= Seq::<Seq<char>>::empty());
        } else {
            match sections_from(ls, 0, no_sections()) {
                Err(_) => {},
                Ok(sec) => match resolution(
                    sec.types,
                    sec.imports,
                    sec.consts_raw,
                    sec.env_raw,
                    env,
                    parent,
                    rs,
                    imported,
                ) {
                    Err(_) => {},
                    Ok(res) => {
                        let merged = res.merged;
                        assert(first_repeat_from(ns, 0) is None);
                        lemma_no_repeat(ns, 0);
                        match sec.consts_raw {
                            Some(raw) => match list_items(raw) {
                                Ok(items) => {
                                    lemma_consts_valued(
                                        items,
                                        0,
                                        merged,
                                        crate::frontmatter::params::import_types(rs),
                                        crate::frontmatter::resolve::preliminary_consts(
                                            res.env,
                                            sec.consts_raw,
                                            merged,
                                        ),
                                        v.consts,
                                    );
                                },
                                Err(_) => {},
                            },
                            None => {},
                        }
                        match sec.env_raw {
                            Some(raw) => match declarations(raw, false, merged, Map::empty(), Map::empty()) {
                                Ok(eds) => {
                                    lemma_env_valued(eds, env, 0, v.env);
                                },
                                Err(_) => {},
                            },
                            None => {},
                        }
                    },
                },
            }
        },
    }
}

/// The imports that a successful parse of a template (without a parent
/// scope) reports are exactly the imports requested by the same source and
/// environment values, whatever namespaces the caller resolved for them.
pub proof fn law_parsed_imports_are_requested(
    s: Seq<char>,
    env: Seq<(Seq<char>, ValueV)>,
    rs: Seq<(String, ImportedNamespace)>,
    imported: Map<Seq<char>, ValueV>,
    v: FrontmatterV,
    b: int,
)
    requires
        frontmatter_of(s, false, None, env, rs, imported) == Ok::<(FrontmatterV, int), crate::error::Fault>((v, b)),
    ensures
        imports_requested(s, env) == Ok::<Seq<(Seq<char>, Seq<char>)>, crate::error::Fault>(v.imports),
{
}

// ---------------------------------------------------------------------------
// Interpolation
// ---------------------------------------------------------------------------
/// Text without `{{` passes interpolation unchanged, and references no
/// variable.
pub proof fn law_plain_text_unchanged(
    s: Seq<char>,
    consts: Map<Seq<char>, ValueV>,
    lb: Set<Seq<char>>,
)
    requires
        !contains(s, expr_open()),
    ensures
        interpolate_from(s, 0, consts) == Ok::<Seq<char>, crate::error::Fault>(s),
        interp_refs_from(s, 0, lb) == Set::<Seq<char>>::empty(),
{
    lemma_find_from(s, expr_open(), 0);
    if find_from(s, expr_open(), 0) is Some {
        let a = find_from(s, expr_open(), 0)->0;
        assert(occurs_at(s, a, expr_open()));
    }
    assert(s.subrange(0, s.len() as int) =~= s);
}

// ---------------------------------------------------------------------------
// Cache eviction
// ---------------------------------------------------------------------------
/// With a limit of at least two, a cache that evicts before each insert
/// never holds more entries than the limit after the insert, as long as it
/// held at most the limit before.
pub proof fn law_eviction_keeps_limit(len: nat, max: nat)
    requires
        max >= 2,
        len <= max,
    ensures
        len - evict_count(len, Some(max)) + 1 <= max,
{
}


// ---------------------------------------------------------------------------
// Truthiness of floats
// ---------------------------------------------------------------------------
/// A float is true in a condition exactly when it is neither +0.0 (all bits
/// clear) nor -0.0 (only the sign bit set); so flipping the sign never
/// changes its truthiness.
pub proof fn law_float_truthy_unless_zero(bits: u64)
    ensures
        truthy(Value::Float(bits)) == !(bits == 0 || bits == 0x8000_0000_0000_0000),
        truthy(Value::Float(bits)) == truthy(Value::Float(bits ^ 0x8000_0000_0000_0000)),
{
    assert(truthy(Value::Float(bits)) == (bits % 0x8000_0000_0000_0000 != 0));
    assert(truthy(Value::Float(bits ^ 0x8000_0000_0000_0000)) == ((bits ^ 0x8000_0000_0000_0000)
        % 0x8000_0000_0000_0000 != 0));
    assert((bits % 0x8000_0000_0000_0000 != 0) == !(bits == 0 || bits == 0x8000_0000_0000_0000))
        by (bit_vector);
    assert(((bits ^ 0x8000_0000_0000_0000) % 0x8000_0000_0000_0000) == bits % 0x8000_0000_0000_0000)
        by (bit_vector);
}

// ---------------------------------------------------------------------------
// Referenced parameters
// ---------------------------------------------------------------------------
/// In a sequence of segments, the references of every segment, walked with
/// the loop bindings in force where it stands, are references of the whole
/// sequence.
pub proof fn law_every_segment_is_walked(segs: Seq<Segment>, lb: Set<Seq<char>>, i: int)
    requires
        0 <= i < segs.len(),
    ensures
        seg_walk(segs[i], segs_walk(segs.take(i), lb).1).0.subset_of(segs_walk(segs, lb).0),
    decreases segs.len(),
{
    let init = segs.drop_last();
    if i == segs.len() - 1 {
        assert(segs.take(i) =~= init);
    } else {
        assert(init.take(i) =~= segs.take(i));
        assert(init[i] == segs[i]);
        law_every_segment_is_walked(init, lb, i);
    }
}

/// The references of an `if` include those of its branches (conditions and
/// bodies) and those of its `else` body, walked with the bindings in force
/// after the branches.
pub proof fn law_if_walks_branches_and_else(
    branches: Vec<(Condition, Vec<Segment>)>,
    else_body: Vec<Segment>,
    lb: Set<Seq<char>>,
)
    ensures
        branches_walk(branches@, lb).0.subset_of(seg_walk(Segment::If { branches, else_body }, lb).0),
        segs_walk(else_body@, branches_walk(branches@, lb).1).0.subset_of(
            seg_walk(Segment::If { branches, else_body }, lb).0,
        ),
{
}

/// The references of `if` branches include every branch's condition and
/// body, walked with the bindings in force where the branch stands.
pub proof fn law_every_branch_is_walked(
    bs: Seq<(Condition, Vec<Segment>)>,
    lb: Set<Seq<char>>,
    i: int,
)
    requires
        0 <= i < bs.len(),
    ensures
        cond_refs(bs[i].0, branches_walk(bs.take(i), lb).1).subset_of(
            branches_walk(bs, lb).0,
        ),
        segs_walk(bs[i].1@, branches_walk(bs.take(i), lb).1).0.subset_of(branches_walk(bs, lb).0),
    decreases bs.len(),
{
    let init = bs.drop_last();
    if i == bs.len() - 1 {
        assert(bs.take(i) =~= init);
    } else {
        assert(init.take(i) =~= bs.take(i));
        assert(init[i] == bs[i]);
        law_every_branch_is_walked(init, lb, i);
    }
}

/// The references of a `for` loop include those of its list, of its body
/// (with the loop binding added) and of its `else` body.
pub proof fn law_for_walks_list_body_and_else(
    binding: String,
    list_expr: CompiledExpr,
    body: Vec<Segment>,
    else_body: Vec<Segment>,
    lb: Set<Seq<char>>,
)
    ensures
        ({
            let v = seg_walk(Segment::ForLoop { binding, list_expr, body, else_body }, lb).0;
            let l1 = segs_walk(body@, lb.insert(binding@)).1;
            &&& expr_refs(list_expr, lb).subset_of(v)
            &&& segs_walk(body@, lb.insert(binding@)).0.subset_of(v)
            &&& segs_walk(else_body@, l1.remove(binding@)).0.subset_of(v)
        }),
{
}

/// A `{{ path }}` segment references the root of its path unless that root
/// is a loop binding.
pub proof fn law_expression_references_its_root(p: CompiledPath, lb: Set<Seq<char>>, x: Seq<char>)
    requires
        path_root(p.parts_view(), lb) == Some(x),
    ensures
        seg_walk(Segment::Expr { expr: CompiledExpr::Path(p) }, lb).0.contains(x),
{
}

/// The references of `match` arms include every arm's labels, guard and
/// body, walked with the bindings in force where the arm stands.
pub proof fn law_every_arm_is_walked(arms: Seq<MatchArm>, lb: Set<Seq<char>>, i: int)
    requires
        0 <= i < arms.len(),
    ensures
        ({
            let l = arms_walk(arms.take(i), lb).1;
            let v = arms_walk(arms, lb).0;
            &&& label_refs(arms[i].variants@, l).subset_of(v)
            &&& (arms[i].guard matches Some(g) ==> cond_refs(g, l).subset_of(v))
            &&& segs_walk(arms[i].body@, l).0.subset_of(v)
        }),
    decreases arms.len(),
{
    let init = arms.drop_last();
    if i == arms.len() - 1 {
        assert(arms.take(i) =~= init);
    } else {
        assert(init.take(i) =~= arms.take(i));
        assert(init[i] == arms[i]);
        law_every_arm_is_walked(init, lb, i);
    }
}

/// The references of a `match` include the root of its expression and the
/// references of its arms; those of a `panic` block are those of its body.
pub proof fn law_match_and_panic_walk_their_parts(
    expr: String,
    arms: Vec<MatchArm>,
    body: Vec<Segment>,
    lb: Set<Seq<char>>,
)
    ensures
        crate::compiled::analysis::opt_set(crate::compiled::analysis::root_variable(expr@, lb)).subset_of(
            seg_walk(Segment::Match { expr, arms }, lb).0,
        ),
        arms_walk(arms@, lb).0.subset_of(seg_walk(Segment::Match { expr, arms }, lb).0),
        segs_walk(body@, lb).0.subset_of(seg_walk(Segment::Panic(body), lb).0),
{
}

/// A `{{ path }}` in the `else` body of an `if` references the root of the
/// path, unless it is a loop binding where it stands: that root is among the
/// references of the `if`.
pub proof fn law_else_expression_is_referenced(
    branches: Vec<(Condition, Vec<Segment>)>,
    else_body: Vec<Segment>,
    lb: Set<Seq<char>>,
    j: int,
    p: CompiledPath,
    x: Seq<char>,
)
    requires
        0 <= j < else_body@.len(),
        else_body@[j] == (Segment::Expr { expr: CompiledExpr::Path(p) }),
        path_root(p.parts_view(), segs_walk(else_body@.take(j), branches_walk(branches@, lb).1).1)
            == Some(x),
    ensures
        seg_walk(Segment::If { branches, else_body }, lb).0.contains(x),
{
    law_every_segment_is_walked(else_body@, branches_walk(branches@, lb).1, j);
    law_if_walks_branches_and_else(branches, else_body, lb);
}


// ---------------------------------------------------------------------------
// Defaults have their declared type
// ---------------------------------------------------------------------------
/// A value is of the kind that type `ty` names: a `str` is a string, an
/// `int` an integer, a `float` a float, a `bool` a boolean, a list type a
/// list, a struct type a struct, an enum a variant name or a tagged struct.
pub open spec fn of_kind(v: ValueV, ty: TypeV) -> bool {
    match ty {
        TypeV::Str => v is Str,
        TypeV::Int => v is Int,
        TypeV::Float => v is Float || v is FloatText,
        TypeV::Bool => v is Bool,
        TypeV::List(_) => v is List,
        TypeV::ListOf(_) => v is List,
        TypeV::Struct(_) => v is Struct,
        TypeV::Enum(_) => v is Str || v is Struct,
        TypeV::Optional(_) => true,
    }
}

/// A declaration has no default or a default of its declared kind.
pub open spec fn default_of_kind(d: DeclV) -> bool {
    match d.default {
        None => true,
        Some(v) => of_kind(v, d.ty),
    }
}

proof fn lemma_default_value_of_kind(
    name: Seq<char>,
    text: Seq<char>,
    ty: TypeV,
    consts: Map<Seq<char>, ValueV>,
)
    ensures
        default_value_of(name, text, ty, consts) matches Ok(v) ==> of_kind(v, ty),
{
    assert(item_value(name, text, ty, consts) matches Ok(v) ==> of_kind(v, ty));
}

proof fn lemma_decls_from_of_kind(
    items: Seq<Seq<char>>,
    k: int,
    is_const: bool,
    al: Map<Seq<char>, TypeV>,
    im: Map<Seq<char>, Map<Seq<char>, TypeV>>,
    consts: Map<Seq<char>, ValueV>,
    ds: Seq<DeclV>,
)
    requires
        decls_from(items, k, is_const, al, im, consts) == Ok::<Seq<DeclV>, crate::error::Fault>(ds),
    ensures
        forall|i: int| 0 <= i < ds.len() ==> default_of_kind(#[trigger] ds[i]),
    decreases items.len() - k,
{
    if 0 <= k < items.len() {
        let (name, tt, d) = crate::frontmatter::lists::decl_parts(items[k])->Ok_0;
        let tv = parse_type(tt, al, im)->Ok_0;
        match d {
            Some(text) => lemma_default_value_of_kind(name, text, tv, consts),
            None => {},
        }
        let dflt: Option<ValueV> = match d {
            None => None,
            Some(text) => if text.len() == 0 {
                None
            } else {
                Some(default_value_of(name, text, tv, consts)->Ok_0)
            },
        };
        let next = if is_const {
            consts.insert(name, dflt->0)
        } else {
            consts
        };
        let rest = decls_from(items, k + 1, is_const, al, im, next)->Ok_0;
        assert(ds == seq![DeclV { name, ty: tv, default: dflt }] + rest);
        lemma_decls_from_of_kind(items, k + 1, is_const, al, im, next, rest);
        assert forall|i: int| 0 <= i < ds.len() implies default_of_kind(#[trigger] ds[i]) by {
            if i > 0 {
                assert(ds[i] == rest[i - 1]);
            }
        }
    }
}

/// Every declaration that a section reads has no default or a default of
/// its declared kind: an `int` parameter never defaults to a float or a
/// string, and so on.
pub proof fn law_declared_defaults_have_their_type(
    raw: Seq<char>,
    is_const: bool,
    al: Map<Seq<char>, TypeV>,
    im: Map<Seq<char>, Map<Seq<char>, TypeV>>,
    consts: Map<Seq<char>, ValueV>,
    ds: Seq<DeclV>,
)
    requires
        declarations(raw, is_const, al, im, consts) == Ok::<Seq<DeclV>, crate::error::Fault>(ds),
    ensures
        forall|i: int| 0 <= i < ds.len() ==> default_of_kind(#[trigger] ds[i]),
{
    match list_items(raw) {
        Ok(items) => {
            lemma_decls_from_of_kind(items, 0, is_const, al, im, consts, ds);
        },
        Err(_) => {},
    }
}

/// In a parsed frontmatter, every parameter and every constant has no
/// default or a default of its declared kind.
pub proof fn law_parsed_defaults_have_their_type(
    s: Seq<char>,
    allow_missing: bool,
    parent: Option<Map<Seq<char>, TypeV>>,
    env: Seq<(Seq<char>, ValueV)>,
    rs: Seq<(String, ImportedNamespace)>,
    imported: Map<Seq<char>, ValueV>,
    v: FrontmatterV,
    b: int,
)
    requires
        frontmatter_of(s, allow_missing, parent, env, rs, imported) == Ok::<(FrontmatterV, int), crate::error::Fault>((v, b)),
    ensures
        forall|i: int| 0 <= i < v.declarations.len() ==> default_of_kind(#[trigger] v.declarations[i]),
        forall|i: int| 0 <= i < v.consts.len() ==> default_of_kind(#[trigger] v.consts[i]),
{
    match extract_block(s, allow_missing) {
        Err(_) => {},
        Ok((ls, b0)) => if allow_missing && !has_opener(s) {
        } else {
            match sections_from(ls, 0, no_sections()) {
                Err(_) => {},
                Ok(sec) => match resolution(
                    sec.types,
                    sec.imports,
                    sec.consts_raw,
                    sec.env_raw,
                    env,
                    parent,
                    rs,
                    imported,
                ) {
                    Err(_) => {},
                    Ok(res) => {
                        match sec.params_raw {
                            None => {},
                            Some(raw) => match declarations(
                                raw,
                                false,
                                res.merged,
                                crate::frontmatter::params::import_types(rs),
                                res.available,
                            ) {
                                Ok(ps) => law_declared_defaults_have_their_type(
                                    raw,
                                    false,
                                    res.merged,
                                    crate::frontmatter::params::import_types(rs),
                                    res.available,
                                    ps,
                                ),
                                Err(_) => {},
                            },
                        }
                        let merged = crate::frontmatter::resolve::merged_aliases(parent, sec.types);
                        match crate::frontmatter::resolve::env_section(merged, sec.env_raw, env) {
                            Err(_) => {},
                            Ok(envs) => {
                                let prelim = crate::frontmatter::resolve::preliminary_consts(
                                    envs,
                                    sec.consts_raw,
                                    merged,
                                );
                                match sec.consts_raw {
                                    None => {},
                                    Some(raw) => match declarations(
                                        raw,
                                        true,
                                        merged,
                                        crate::frontmatter::params::import_types(rs),
                                        prelim,
                                    ) {
                                        Ok(cs) => law_declared_defaults_have_their_type(
                                            raw,
                                            true,
                                            merged,
                                            crate::frontmatter::params::import_types(rs),
                                            prelim,
                                            cs,
                                        ),
                                        Err(_) => {},
                                    },
                                }
                            },
                        }
                    },
                },
            }
        },
    }
}

// ---------------------------------------------------------------------------
// Comparison operators
// ---------------------------------------------------------------------------
/// The text that names a comparison operator in a condition.
pub open spec fn op_symbol(op: ComparisonOp) -> Seq<char> {
    match op {
        ComparisonOp::Eq => "=="@,
        ComparisonOp::Ne => "!="@,
        ComparisonOp::Le => "<="@,
        ComparisonOp::Ge => ">="@,
        ComparisonOp::Lt => "<"@,
        ComparisonOp::Gt => ">"@,
        ComparisonOp::In => " in "@,
    }
}

/// A comparison read from text `t` stands at an occurrence of the text of
/// its operator: its left operand is read from the text before that
/// occurrence and its right operand from the text after it.
pub proof fn law_comparison_names_its_operator(
    t: Seq<char>,
    k: int,
    l: OperandV,
    op: ComparisonOp,
    r: OperandV,
)
    requires
        0 <= k,
        comparison_from(t, k) == Some(Ok::<CondV, crate::error::Fault>(CondV::Comparison(l, op, r))),
    ensures
        exists|idx: int|
            occurs_at(t, idx, op_symbol(op)) && operand_of(trim(t.take(idx))) == Ok::<OperandV, crate::error::Fault>(l)
                && operand_of(trim(t.skip(idx + op_symbol(op).len()))) == Ok::<OperandV, crate::error::Fault>(r),
    decreases 7 - k,
{
    if k < 7 {
        let (o, cmp) = comparison_ops()[k];
        assert(op_symbol(cmp) == o) by {
            reveal_strlit("==");
            reveal_strlit("!=");
            reveal_strlit("<=");
            reveal_strlit(">=");
            reveal_strlit("<");
            reveal_strlit(">");
            reveal_strlit(" in ");
            if k == 0 {
                assert(op_symbol(cmp) =~= o);
            } else if k == 1 {
                assert(op_symbol(cmp) =~= o);
            } else if k == 2 {
                assert(op_symbol(cmp) =~= o);
            } else if k == 3 {
                assert(op_symbol(cmp) =~= o);
            } else if k == 4 {
                assert(op_symbol(cmp) =~= o);
            } else if k == 5 {
                assert(op_symbol(cmp) =~= o);
            } else {
                assert(op_symbol(cmp) =~= o);
            }
        }
        match top_find(t, o, false) {
            Some(idx) => {
                lemma_scan(t, o, 0, 0, false);
                assert(cmp == op);
                assert(occurs_at(t, idx, op_symbol(op)));
            },
            None => {
                law_comparison_names_its_operator(t, k + 1, l, op, r);
            },
        }
    }
}

/// A condition primary that reads as a comparison names its operator: the
/// operator's text occurs in the trimmed primary, with the left operand
/// read from the text before it and the right operand from the text after.
pub proof fn law_primary_comparison_names_its_operator(
    s: Seq<char>,
    l: OperandV,
    op: ComparisonOp,
    r: OperandV,
)
    requires
        primary(s) == Ok::<CondV, crate::error::Fault>(CondV::Comparison(l, op, r)),
    ensures
        exists|idx: int|
            occurs_at(trim(s), idx, op_symbol(op)) && operand_of(trim(trim(s).take(idx)))
                == Ok::<OperandV, crate::error::Fault>(l) && operand_of(
                trim(trim(s).skip(idx + op_symbol(op).len())),
            ) == Ok::<OperandV, crate::error::Fault>(r),
{
    let t = trim(s);
    if !crate::text::starts_with(t, crate::compiled::condition::match_prefix()) {
        if comparison_from(t, 0) is Some {
            law_comparison_names_its_operator(t, 0, l, op, r);
        }
    }
}

// ---------------------------------------------------------------------------
// Optional types
// ---------------------------------------------------------------------------
/// A text that starts and ends with a character other than white space is
/// its own trim.
proof fn lemma_trim_of_unpadded(s: Seq<char>)
    requires
        s.len() > 0,
        !is_ws(s[0]),
        !is_ws(s[s.len() - 1]),
    ensures
        trim(s) == s,
{
    assert(crate::text::ws_run_end(s, 0) == 0);
    assert(crate::text::trim_start(s) =~= s);
    assert(crate::text::ws_run_start(s, s.len() as int) == s.len());
    assert(crate::text::trim_end(s) =~= s);
}

/// Wrapping an annotation that denotes type `t` in `option(...)` denotes the
/// optional `t`.
pub proof fn law_option_wraps_its_type(
    inner: Seq<char>,
    al: Map<Seq<char>, TypeV>,
    im: Map<Seq<char>, Map<Seq<char>, TypeV>>,
    t: TypeV,
)
    requires
        parse_type(inner, al, im) == Ok::<TypeV, crate::error::Fault>(t),
    ensures
        parse_type("option("@ + inner + ")"@, al, im) == Ok::<TypeV, crate::error::Fault>(
            TypeV::Optional(Box::new(t)),
        ),
{
    reveal_strlit("option(");
    reveal_strlit(")");
    let s = "option("@ + inner + ")"@;
    let n = s.len();
    assert(s[0] == 'o');
    assert(s[n - 1] == ')');
    lemma_trim_of_unpadded(s);
    assert(s[6] == '(');
    lemma_find_char_from(s, '(', 0);
    let o = find_char_from(s, '(', 0)->Some_0;
    assert(o == 6) by {
        if o < 6 {
            assert(s[o] == "option("@[o]);
        }
    }
    let head = s.take(6);
    assert(head =~= crate::frontmatter::params::kw_option());
    lemma_trim_of_unpadded(head);
    assert(s.subrange(7, n - 1) =~= inner);
    assert(s != crate::frontmatter::params::kw_str());
    assert(s != crate::frontmatter::params::kw_int());
    assert(s != crate::frontmatter::params::kw_float());
    assert(s != crate::frontmatter::params::kw_bool());
    assert(head != crate::frontmatter::params::kw_list());
    assert(head != crate::frontmatter::params::kw_struct()) by {
        assert(head[0] != crate::frontmatter::params::kw_struct()[0]);
    }
    assert(head != crate::frontmatter::params::kw_enum());
}

} // verus!
