//! Static variable reference analysis: the root variable names that a
//! compiled segment tree references, excluding loop bindings and literals.
//! Used for unused-variable detection.
use vstd::prelude::*;

use super::{
    name_set_contents, CompiledExpr, CompiledPath, Condition, ConditionOperand, IncludeDirective,
    MatchArm, NameSet, Segment,
};
use crate::literals::{kw_false, kw_true, quoted_inner, strip_quotes};
use crate::numeric::{float_syntax, int_literal, is_float_syntax, parse_int};
use crate::text::{
    chars_of, ends_with, find_char_at, find_char_from, find_from, has_infix, has_suffix,
    lemma_find_char_from, same_chars, slice_of, starts_with, string_of, trim, trimmed, contains,
};

verus! {

// ---------------------------------------------------------------------------
// Root variables of expression text
// ---------------------------------------------------------------------------
/// The built-in functions: `idx`, `len`, `kind`, `kinds`, `has`.
pub open spec fn builtin_functions() -> Seq<Seq<char>> {
    seq![
        seq!['i', 'd', 'x'],
        seq!['l', 'e', 'n'],
        seq!['k', 'i', 'n', 'd'],
        seq!['k', 'i', 'n', 'd', 's'],
        seq!['h', 'a', 's'],
    ]
}

/// The scope prefixes that a variable path may carry: `consts.`, `opts.`,
/// `options.`, `params.`.
pub open spec fn scope_prefixes() -> Seq<Seq<char>> {
    seq![
        seq!['c', 'o', 'n', 's', 't', 's', '.'],
        seq!['o', 'p', 't', 's', '.'],
        seq!['o', 'p', 't', 'i', 'o', 'n', 's', '.'],
        seq!['p', 'a', 'r', 'a', 'm', 's', '.'],
    ]
}

/// The scope names: `consts`, `opts`, `options`, `params`.
pub open spec fn scope_names() -> Seq<Seq<char>> {
    seq![
        seq!['c', 'o', 'n', 's', 't', 's'],
        seq!['o', 'p', 't', 's'],
        seq!['o', 'p', 't', 'i', 'o', 'n', 's'],
        seq!['p', 'a', 'r', 'a', 'm', 's'],
    ]
}

/// `t` without the first scope prefix that starts it, trimmed.
pub open spec fn strip_scope(t: Seq<char>) -> Seq<char> {
    let p = scope_prefixes();
    if starts_with(t, p[0]) {
        trim(t.skip(p[0].len() as int))
    } else if starts_with(t, p[1]) {
        trim(t.skip(p[1].len() as int))
    } else if starts_with(t, p[2]) {
        trim(t.skip(p[2].len() as int))
    } else if starts_with(t, p[3]) {
        trim(t.skip(p[3].len() as int))
    } else {
        t
    }
}

/// The text before the first `c`, or all of `t`.
pub open spec fn before_char(t: Seq<char>, c: char) -> Seq<char> {
    match find_char_from(t, c, 0) {
        Some(k) => t.take(k),
        None => t,
    }
}

/// The token is a literal: a quoted string, `true`, `false`, an `i64`, or a
/// number that `f64::from_str` reads.
pub open spec fn is_literal_token(t: Seq<char>) -> bool {
    ||| quoted_inner(t) is Some
    ||| t == kw_true()
    ||| t == kw_false()
    ||| int_literal(t) is Some
    ||| float_syntax(t)
}

/// A call `f(arg)` of a built-in function: the position of its `(`.
pub open spec fn builtin_call(t: Seq<char>) -> Option<int> {
    match find_char_from(t, '(', 0) {
        Some(open) => if t.len() > 0 && t.last() == ')' && builtin_functions().contains(
            trim(t.take(open)),
        ) {
            Some(open)
        } else {
            None
        },
        None => None,
    }
}

/// The root variable that an expression names, unless it is a literal, a
/// loop binding in `lb`, or empty: for a built-in call the root of its
/// argument, else the root of the part before the first `|`; a scope
/// prefix is skipped, and the root is the part before the first `.`.
pub open spec fn root_variable(expr: Seq<char>, lb: Set<Seq<char>>) -> Option<Seq<char>> {
    let t = trim(expr);
    if t.len() == 0 {
        None
    } else {
        match builtin_call(t) {
            Some(open) => {
                let arg = strip_scope(trim(t.subrange(open + 1, t.len() - 1)));
                if is_literal_token(arg) {
                    None
                } else {
                    let root = trim(before_char(arg, '.'));
                    if root.len() > 0 && !lb.contains(root) && !is_literal_token(root) {
                        Some(root)
                    } else {
                        None
                    }
                }
            },
            None => {
                let base = strip_scope(trim(before_char(t, '|')));
                if is_literal_token(base) {
                    None
                } else {
                    let root = trim(before_char(base, '.'));
                    if root.len() == 0 || is_literal_token(root) || lb.contains(root) {
                        None
                    } else {
                        Some(root)
                    }
                }
            },
        }
    }
}

pub open spec fn opt_set(o: Option<Seq<char>>) -> Set<Seq<char>> {
    match o {
        Some(x) => set![x],
        None => Set::empty(),
    }
}

pub open spec fn expr_open() -> Seq<char> {
    seq!['{', '{']
}

pub open spec fn expr_close() -> Seq<char> {
    seq!['}', '}']
}

/// The root variables of the `{{ expr }}` parts of `s` from position `i` on.
pub open spec fn interp_refs_from(s: Seq<char>, i: int, lb: Set<Seq<char>>) -> Set<Seq<char>>
    decreases s.len() - i,
{
    if i < 0 || i > s.len() {
        Set::empty()
    } else {
        match find_from(s, expr_open(), i) {
            None => Set::empty(),
            Some(a) => match find_from(s, expr_close(), a + 2) {
                None => Set::empty(),
                Some(b) => if i <= a && a + 2 <= b && b + 2 <= s.len() {
                    opt_set(root_variable(s.subrange(a + 2, b), lb)).union(
                        interp_refs_from(s, b + 2, lb),
                    )
                } else {
                    Set::empty()
                },
            },
        }
    }
}

/// The root variable of a path, skipping a leading scope name, unless it
/// is a loop binding.
pub open spec fn path_root(parts: Seq<Seq<char>>, lb: Set<Seq<char>>) -> Option<Seq<char>> {
    let root: Option<Seq<char>> = if scope_names().contains(parts[0]) {
        if parts.len() > 1 {
            Some(parts[1])
        } else {
            None
        }
    } else {
        Some(parts[0])
    };
    match root {
        Some(r) => if lb.contains(r) {
            None
        } else {
            Some(r)
        },
        None => None,
    }
}

pub open spec fn expr_refs(e: CompiledExpr, lb: Set<Seq<char>>) -> Set<Seq<char>> {
    match e {
        CompiledExpr::Path(p) => opt_set(path_root(p.parts_view(), lb)),
        CompiledExpr::Len(p) => opt_set(path_root(p.parts_view(), lb)),
        CompiledExpr::Kind(p) => opt_set(path_root(p.parts_view(), lb)),
        CompiledExpr::Kinds(p) => opt_set(path_root(p.parts_view(), lb)),
        CompiledExpr::Has(p) => opt_set(path_root(p.parts_view(), lb)),
        CompiledExpr::Idx(_) => Set::empty(),
    }
}

/// The root variables of a quoted value: its `{{ expr }}` parts; of any
/// other value: its root variable.
pub open spec fn value_refs(v: Seq<char>, lb: Set<Seq<char>>) -> Set<Seq<char>> {
    match quoted_inner(v) {
        Some(inner) => interp_refs_from(inner, 0, lb),
        None => opt_set(root_variable(v, lb)),
    }
}

/// The root variables of `with` values.
pub open spec fn with_refs(ws: Seq<(String, String)>, lb: Set<Seq<char>>) -> Set<Seq<char>>
    decreases ws.len(),
{
    if ws.len() == 0 {
        Set::empty()
    } else {
        with_refs(ws.drop_last(), lb).union(value_refs(ws.last().1@, lb))
    }
}

/// The root variables of quoted match labels' `{{ expr }}` parts.
pub open spec fn label_refs(vs: Seq<String>, lb: Set<Seq<char>>) -> Set<Seq<char>>
    decreases vs.len(),
{
    if vs.len() == 0 {
        Set::empty()
    } else {
        label_refs(vs.drop_last(), lb).union(
            match quoted_inner(vs.last()@) {
                Some(inner) => interp_refs_from(inner, 0, lb),
                None => Set::empty(),
            },
        )
    }
}

/// The ending of an include that names a file.
pub open spec fn md_suffix() -> Seq<char> {
    seq!['.', 'm', 'd']
}

pub open spec fn tmpl_md_suffix() -> Seq<char> {
    seq!['.', 't', 'm', 'p', 'l', '.', 'm', 'd']
}

/// The root variables of an include: the `{{ expr }}` parts of its target
/// (or the target itself when it names no file), its `with` values and its
/// `for` list.
pub open spec fn include_refs(inc: IncludeDirective, lb: Set<Seq<char>>) -> Set<Seq<char>> {
    let p = inc.path@;
    let from_path = if contains(p, expr_open()) {
        interp_refs_from(p, 0, lb)
    } else if !ends_with(p, tmpl_md_suffix()) && !ends_with(p, md_suffix()) {
        opt_set(root_variable(p, lb))
    } else {
        Set::empty()
    };
    let from_for = match inc.for_each {
        Some((_, l)) => opt_set(root_variable(l@, lb)),
        None => Set::empty(),
    };
    from_path.union(with_refs(inc.with_vars@, lb)).union(from_for)
}

// ---------------------------------------------------------------------------
// The walk
// ---------------------------------------------------------------------------
/// The root variables that an operand references.
pub open spec fn operand_refs(o: ConditionOperand, lb: Set<Seq<char>>) -> Set<Seq<char>>
    decreases o,
{
    match o {
        ConditionOperand::Literal(_) => Set::empty(),
        ConditionOperand::Idx(_) => Set::empty(),
        ConditionOperand::InterpolatedStr(segs) => segs_walk(segs@, lb).0,
        ConditionOperand::Path { path } => opt_set(path_root(path.parts_view(), lb)),
        ConditionOperand::Len(p) => opt_set(path_root(p.parts_view(), lb)),
        ConditionOperand::Kind(p) => opt_set(path_root(p.parts_view(), lb)),
        ConditionOperand::Kinds(p) => opt_set(path_root(p.parts_view(), lb)),
        ConditionOperand::Has(p) => opt_set(path_root(p.parts_view(), lb)),
    }
}

/// The root variables that a condition references.
pub open spec fn cond_refs(c: Condition, lb: Set<Seq<char>>) -> Set<Seq<char>>
    decreases c,
{
    match c {
        Condition::Truthy(o) => operand_refs(o, lb),
        Condition::Not(inner) => cond_refs(*inner, lb),
        Condition::Comparison { left, op: _, right } => operand_refs(left, lb).union(
            operand_refs(right, lb),
        ),
        Condition::And(l, r) => cond_refs(*l, lb).union(cond_refs(*r, lb)),
        Condition::Or(l, r) => cond_refs(*l, lb).union(cond_refs(*r, lb)),
        Condition::MatchVariant { expr, variants: _, is_option: _ } => opt_set(
            path_root(expr.parts_view(), lb),
        ),
    }
}

/// The names a list holds.
pub open spec fn string_set(rs: Seq<String>) -> Set<Seq<char>>
    decreases rs.len(),
{
    if rs.len() == 0 {
        Set::empty()
    } else {
        string_set(rs.drop_last()).insert(rs.last()@)
    }
}

/// The walk over a sequence of segments, in order: the root variables
/// referenced, and the loop bindings afterwards (a loop adds its binding
/// for its body and removes it after).
pub open spec fn segs_walk(segs: Seq<Segment>, lb: Set<Seq<char>>) -> (Set<Seq<char>>, Set<Seq<char>>)
    decreases segs,
{
    if segs.len() == 0 {
        (Set::empty(), lb)
    } else {
        let (v0, l0) = segs_walk(segs.drop_last(), lb);
        let (v1, l1) = seg_walk(segs.last(), l0);
        (v0.union(v1), l1)
    }
}

/// The walk over `if` branches, in order.
pub open spec fn branches_walk(bs: Seq<(Condition, Vec<Segment>)>, lb: Set<Seq<char>>) -> (
    Set<Seq<char>>,
    Set<Seq<char>>,
)
    decreases bs,
{
    if bs.len() == 0 {
        (Set::empty(), lb)
    } else {
        let (v0, l0) = branches_walk(bs.drop_last(), lb);
        let c = cond_refs(bs.last().0, l0);
        let (v1, l1) = segs_walk(bs.last().1@, l0);
        (v0.union(c).union(v1), l1)
    }
}

/// The walk over `match` arms, in order.
pub open spec fn arms_walk(arms: Seq<MatchArm>, lb: Set<Seq<char>>) -> (Set<Seq<char>>, Set<Seq<char>>)
    decreases arms,
{
    if arms.len() == 0 {
        (Set::empty(), lb)
    } else {
        let (v0, l0) = arms_walk(arms.drop_last(), lb);
        let a = arms.last();
        let labels = label_refs(a.variants@, l0);
        let guard = match a.guard {
            Some(g) => cond_refs(g, l0),
            None => Set::empty(),
        };
        let (v1, l1) = segs_walk(a.body@, l0);
        (v0.union(labels).union(guard).union(v1), l1)
    }
}

/// The walk over one segment.
pub open spec fn seg_walk(seg: Segment, lb: Set<Seq<char>>) -> (Set<Seq<char>>, Set<Seq<char>>)
    decreases seg,
{
    match seg {
        Segment::Static(_) => (Set::empty(), lb),
        Segment::Raw(_) => (Set::empty(), lb),
        Segment::Comment(refs) => (string_set(refs@), lb),
        Segment::Expr { expr } => (expr_refs(expr, lb), lb),
        Segment::ForLoop { binding, list_expr, body, else_body } => {
            let v0 = expr_refs(list_expr, lb);
            let (v1, l1) = segs_walk(body@, lb.insert(binding@));
            let (v2, l2) = segs_walk(else_body@, l1.remove(binding@));
            (v0.union(v1).union(v2), l2)
        },
        Segment::If { branches, else_body } => {
            let (v1, l1) = branches_walk(branches@, lb);
            let (v2, l2) = segs_walk(else_body@, l1);
            (v1.union(v2), l2)
        },
        Segment::Include(inc) => (include_refs(inc, lb), lb),
        Segment::Match { expr, arms } => {
            let (v1, l1) = arms_walk(arms@, lb);
            (opt_set(root_variable(expr@, lb)).union(v1), l1)
        },
        Segment::Panic(segs) => segs_walk(segs@, lb),
    }
}

// ---------------------------------------------------------------------------
// Executable analysis
// ---------------------------------------------------------------------------
/// Whether the token is a literal.
pub fn is_literal(token: &[char]) -> (r: bool)
    ensures
        r == is_literal_token(token@),
{
    let t = vec!['t', 'r', 'u', 'e'];
    let f = vec!['f', 'a', 'l', 's', 'e'];
    assert(t@ =~= kw_true());
    assert(f@ =~= kw_false());
    strip_quotes(token).is_some() || same_chars(token, t.as_slice()) || same_chars(
        token,
        f.as_slice(),
    ) || parse_int(token).is_some() || is_float_syntax(token)
}

/// `t` without its scope prefix, trimmed.
fn strip_scope_exec(t: &[char]) -> (r: Vec<char>)
    ensures
        r@ == strip_scope(t@),
{
    let ps: Vec<Vec<char>> = vec![
        vec!['c', 'o', 'n', 's', 't', 's', '.'],
        vec!['o', 'p', 't', 's', '.'],
        vec!['o', 'p', 't', 'i', 'o', 'n', 's', '.'],
        vec!['p', 'a', 'r', 'a', 'm', 's', '.'],
    ];
    assert(ps@[0]@ =~= scope_prefixes()[0]);
    assert(ps@[1]@ =~= scope_prefixes()[1]);
    assert(ps@[2]@ =~= scope_prefixes()[2]);
    assert(ps@[3]@ =~= scope_prefixes()[3]);
    let n = t.len();
    let mut k: usize = 0;
    while k < 4
        invariant
            k <= 4,
            n == t@.len(),
            ps@.len() == 4,
            forall|j: int| 0 <= j < 4 ==> (#[trigger] ps@[j])@ == scope_prefixes()[j],
            forall|j: int| 0 <= j < k ==> !starts_with(t@, #[trigger] scope_prefixes()[j]),
        decreases 4 - k,
    {
        assert(ps@[k as int]@ == scope_prefixes()[k as int]);
        if crate::text::has_prefix(t, ps[k].as_slice()) {
            let l = ps[k].len();
            let rest = slice_of(t, l, n);
            assert(rest@ =~= t@.skip(scope_prefixes()[k as int].len() as int));
            return trimmed(rest.as_slice());
        }
        k = k + 1;
    }
    slice_of(t, 0, n)
}

/// The text before the first `c`.
fn before_char_exec(t: &[char], c: char) -> (r: Vec<char>)
    ensures
        r@ == before_char(t@, c),
{
    let n = t.len();
    match find_char_at(t, c, 0) {
        Some(k) => slice_of(t, 0, k),
        None => {
            let r = slice_of(t, 0, n);
            assert(r@ =~= t@);
            r
        },
    }
}

/// Whether `f` names a built-in function.
fn is_builtin(f: &[char]) -> (r: bool)
    ensures
        r == builtin_functions().contains(f@),
{
    let names: Vec<Vec<char>> = vec![
        vec!['i', 'd', 'x'],
        vec!['l', 'e', 'n'],
        vec!['k', 'i', 'n', 'd'],
        vec!['k', 'i', 'n', 'd', 's'],
        vec!['h', 'a', 's'],
    ];
    assert(crate::text::views(names@) =~= builtin_functions());
    let mut k: usize = 0;
    while k < 5
        invariant
            k <= 5,
            names@.len() == 5,
            crate::text::views(names@) == builtin_functions(),
            forall|j: int| 0 <= j < k ==> builtin_functions()[j] != f@,
        decreases 5 - k,
    {
        assert(names@[k as int]@ == builtin_functions()[k as int]);
        if same_chars(names[k].as_slice(), f) {
            assert(builtin_functions()[k as int] == f@);
            return true;
        }
        k = k + 1;
    }
    false
}

/// The position of the `(` of a built-in call.
pub fn builtin_call_exec(t: &[char]) -> (r: Option<usize>)
    ensures
        match r {
            Some(o) => builtin_call(t@) == Some(o as int) && o < t@.len(),
            None => builtin_call(t@) is None,
        },
{
    let n = t.len();
    match find_char_at(t, '(', 0) {
        Some(open) => {
            if n > 0 && t[n - 1] == ')' {
                let head = slice_of(t, 0, open);
                assert(head@ =~= t@.take(open as int));
                let f = trimmed(head.as_slice());
                if is_builtin(f.as_slice()) {
                    return Some(open);
                }
            }
            None
        },
        None => None,
    }
}

/// The root variable that an expression names.
fn root_variable_chars(t0: &[char], lb: &NameSet) -> (r: Option<String>)
    ensures
        match r {
            Some(s) => root_variable(t0@, lb@) == Some(s@),
            None => root_variable(t0@, lb@) is None,
        },
{
    let t = trimmed(t0);
    let n = t.len();
    if n == 0 {
        return None;
    }
    match builtin_call_exec(t.as_slice()) {
        Some(open) => {
            proof {
                lemma_find_char_from(t@, '(', 0);
            }
            let inner = slice_of(t.as_slice(), open + 1, n - 1);
            let arg = strip_scope_exec(trimmed(inner.as_slice()).as_slice());
            if is_literal(arg.as_slice()) {
                return None;
            }
            let root = trimmed(before_char_exec(arg.as_slice(), '.').as_slice());
            let rs = string_of(root.as_slice());
            if root.len() > 0 && !lb.contains(rs.as_str()) && !is_literal(root.as_slice()) {
                Some(rs)
            } else {
                None
            }
        },
        None => {
            let base = strip_scope_exec(trimmed(before_char_exec(t.as_slice(), '|').as_slice()).as_slice());
            if is_literal(base.as_slice()) {
                return None;
            }
            let root = trimmed(before_char_exec(base.as_slice(), '.').as_slice());
            let rs = string_of(root.as_slice());
            if root.len() == 0 || is_literal(root.as_slice()) || lb.contains(rs.as_str()) {
                None
            } else {
                Some(rs)
            }
        },
    }
}

/// The root variable that an expression names, unless it is a literal or
/// a loop binding.
pub fn extract_root_variable(expr: &str, loop_bindings: &NameSet) -> (r: Option<String>)
    ensures
        match r {
            Some(s) => root_variable(expr@, loop_bindings@) == Some(s@),
            None => root_variable(expr@, loop_bindings@) is None,
        },
{
    let cs = chars_of(expr);
    root_variable_chars(cs.as_slice(), loop_bindings)
}

/// Adds a root variable, if there is one.
fn insert_opt(vars: &mut NameSet, o: Option<String>)
    ensures
        final(vars)@ == old(vars)@.union(
            opt_set(
                match o {
                    Some(s) => Some(s@),
                    None => None,
                },
            ),
        ),
{
    match o {
        Some(s) => {
            let ghost sv = s@;
            vars.insert(s);
            assert(vars@ =~= old(vars)@.union(set![sv]));
        },
        None => {
            assert(vars@ =~= old(vars)@.union(Set::empty()));
        },
    }
}

/// Adds the root variables of the `{{ expr }}` parts of `s`.
fn interpolation_refs_chars(s: &[char], vars: &mut NameSet, lb: &NameSet)
    ensures
        final(vars)@ == old(vars)@.union(interp_refs_from(s@, 0, lb@)),
{
    let n = s.len();
    let open = vec!['{', '{'];
    let close = vec!['}', '}'];
    assert(open@ =~= expr_open());
    assert(close@ =~= expr_close());
    let ghost V0 = vars@;
    let mut i: usize = 0;
    loop
        invariant
            n == s@.len(),
            i <= n,
            open@ == expr_open(),
            close@ == expr_close(),
            V0 == old(vars)@,
            V0.union(interp_refs_from(s@, 0, lb@)) == vars@.union(interp_refs_from(s@, i as int, lb@)),
        decreases n - i,
    {
        proof {
            crate::text::lemma_find_from(s@, expr_open(), i as int);
        }
        match crate::text::find_at(s, open.as_slice(), i) {
            None => {
                assert(vars@.union(interp_refs_from(s@, i as int, lb@)) =~= vars@);
                return;
            },
            Some(a) => {
                proof {
                    crate::text::lemma_find_from(s@, expr_close(), a + 2);
                }
                match crate::text::find_at(s, close.as_slice(), a + 2) {
                    None => {
                        assert(vars@.union(interp_refs_from(s@, i as int, lb@)) =~= vars@);
                        return;
                    },
                    Some(b) => {
                        let ghost before = vars@;
                        let ex = slice_of(s, a + 2, b);
                        let root = root_variable_chars(ex.as_slice(), lb);
                        insert_opt(vars, root);
                        assert(before.union(interp_refs_from(s@, i as int, lb@)) =~= vars@.union(
                            interp_refs_from(s@, b + 2, lb@),
                        ));
                        i = b + 2;
                    },
                }
            },
        }
    }
}

/// Adds the root variables of the `{{ expr }}` parts of `s`.
pub fn extract_interpolation_refs(s: &str, vars: &mut NameSet, loop_bindings: &NameSet)
    ensures
        final(vars)@ == old(vars)@.union(interp_refs_from(s@, 0, loop_bindings@)),
{
    let cs = chars_of(s);
    interpolation_refs_chars(cs.as_slice(), vars, loop_bindings);
}

/// Whether `s` is a scope name.
fn is_scope_name(s: &String) -> (r: bool)
    ensures
        r == scope_names().contains(s@),
{
    let cs = chars_of(s.as_str());
    let names: Vec<Vec<char>> = vec![
        vec!['c', 'o', 'n', 's', 't', 's'],
        vec!['o', 'p', 't', 's'],
        vec!['o', 'p', 't', 'i', 'o', 'n', 's'],
        vec!['p', 'a', 'r', 'a', 'm', 's'],
    ];
    assert(crate::text::views(names@) =~= scope_names());
    let mut k: usize = 0;
    while k < 4
        invariant
            k <= 4,
            names@.len() == 4,
            cs@ == s@,
            crate::text::views(names@) == scope_names(),
            forall|j: int| 0 <= j < k ==> scope_names()[j] != s@,
        decreases 4 - k,
    {
        assert(names@[k as int]@ == scope_names()[k as int]);
        if same_chars(names[k].as_slice(), cs.as_slice()) {
            assert(scope_names()[k as int] == s@);
            return true;
        }
        k = k + 1;
    }
    false
}

/// The root variable of a path.
fn extract_path_variable(path: &CompiledPath, loop_bindings: &NameSet) -> (r: Option<String>)
    ensures
        match r {
            Some(s) => path_root(path.parts_view(), loop_bindings@) == Some(s@),
            None => path_root(path.parts_view(), loop_bindings@) is None,
        },
{
    let parts = path.parts();
    assert(parts@.map_values(|s: String| s@)[0] == parts@[0]@);
    let root: &String = if is_scope_name(&parts[0]) {
        if parts.len() > 1 {
            assert(parts@.map_values(|s: String| s@)[1] == parts@[1]@);
            &parts[1]
        } else {
            return None;
        }
    } else {
        &parts[0]
    };
    if loop_bindings.contains(root.as_str()) {
        None
    } else {
        Some(root.clone())
    }
}

/// Adds the root variable of a compiled expression.
fn extract_expr_variables(expr: &CompiledExpr, vars: &mut NameSet, loop_bindings: &NameSet)
    ensures
        final(vars)@ == old(vars)@.union(expr_refs(*expr, loop_bindings@)),
{
    match expr {
        CompiledExpr::Path(p) => insert_opt(vars, extract_path_variable(p, loop_bindings)),
        CompiledExpr::Len(p) => insert_opt(vars, extract_path_variable(p, loop_bindings)),
        CompiledExpr::Kind(p) => insert_opt(vars, extract_path_variable(p, loop_bindings)),
        CompiledExpr::Kinds(p) => insert_opt(vars, extract_path_variable(p, loop_bindings)),
        CompiledExpr::Has(p) => insert_opt(vars, extract_path_variable(p, loop_bindings)),
        CompiledExpr::Idx(_) => {
            assert(vars@ =~= old(vars)@.union(Set::empty()));
        },
    }
}

/// Adds the root variables of an include directive.
fn extract_include_variables(inc: &IncludeDirective, vars: &mut NameSet, lb: &NameSet)
    ensures
        final(vars)@ == old(vars)@.union(include_refs(*inc, lb@)),
{
    let p = chars_of(inc.path.as_str());
    let open = vec!['{', '{'];
    let md = vec!['.', 'm', 'd'];
    let tmd = vec!['.', 't', 'm', 'p', 'l', '.', 'm', 'd'];
    assert(open@ =~= expr_open());
    assert(md@ =~= md_suffix());
    assert(tmd@ =~= tmpl_md_suffix());
    let ghost V0 = vars@;
    if has_infix(p.as_slice(), open.as_slice()) {
        interpolation_refs_chars(p.as_slice(), vars, lb);
    } else if !has_suffix(p.as_slice(), tmd.as_slice()) && !has_suffix(p.as_slice(), md.as_slice()) {
        insert_opt(vars, root_variable_chars(p.as_slice(), lb));
    } else {
        assert(vars@ =~= vars@.union(Set::empty()));
    }
    let ghost V1 = vars@;
    let ghost W = inc.with_vars@;
    let mut i: usize = 0;
    assert(with_refs(W.take(0), lb@) =~= Set::<Seq<char>>::empty());
    while i < inc.with_vars.len()
        invariant
            i <= W.len(),
            W == inc.with_vars@,
            vars@ == V1.union(with_refs(W.take(i as int), lb@)),
        decreases W.len() - i,
    {
        assert(W.take(i + 1).drop_last() =~= W.take(i as int));
        assert(W.take(i + 1).last() == W[i as int]);
        let v = chars_of(inc.with_vars[i].1.as_str());
        let ghost before = vars@;
        match strip_quotes(v.as_slice()) {
            Some(inner) => {
                interpolation_refs_chars(inner.as_slice(), vars, lb);
            },
            None => {
                insert_opt(vars, root_variable_chars(v.as_slice(), lb));
            },
        }
        assert(vars@ =~= V1.union(with_refs(W.take(i + 1), lb@)));
        i = i + 1;
    }
    assert(W.take(W.len() as int) =~= W);
    match &inc.for_each {
        Some((_, l)) => {
            let lc = chars_of(l.as_str());
            insert_opt(vars, root_variable_chars(lc.as_slice(), lb));
        },
        None => {},
    }
    assert(vars@ =~= V0.union(include_refs(*inc, lb@)));
}

/// Adds the root variables of quoted match labels.
fn extract_label_variables(vs: &Vec<String>, vars: &mut NameSet, lb: &NameSet)
    ensures
        final(vars)@ == old(vars)@.union(label_refs(vs@, lb@)),
{
    let ghost V0 = vars@;
    let mut i: usize = 0;
    assert(label_refs(vs@.take(0), lb@) =~= Set::<Seq<char>>::empty());
    while i < vs.len()
        invariant
            i <= vs@.len(),
            vars@ == V0.union(label_refs(vs@.take(i as int), lb@)),
        decreases vs@.len() - i,
    {
        assert(vs@.take(i + 1).drop_last() =~= vs@.take(i as int));
        assert(vs@.take(i + 1).last() == vs@[i as int]);
        let v = chars_of(vs[i].as_str());
        match strip_quotes(v.as_slice()) {
            Some(inner) => {
                interpolation_refs_chars(inner.as_slice(), vars, lb);
            },
            None => {},
        }
        assert(vars@ =~= V0.union(label_refs(vs@.take(i + 1), lb@)));
        i = i + 1;
    }
    assert(vs@.take(vs@.len() as int) =~= vs@);
}

/// Adds the root variables of a condition operand; the loop bindings that
/// an interpolated string's own loops change are discarded.
fn extract_operand_variables(operand: &ConditionOperand, vars: &mut NameSet, loop_bindings: &NameSet)
    ensures
        final(vars)@ == old(vars)@.union(operand_refs(*operand, loop_bindings@)),
    decreases operand,
{
    match operand {
        ConditionOperand::Literal(_) => {
            assert(vars@ =~= old(vars)@.union(Set::empty()));
        },
        ConditionOperand::Idx(_) => {
            assert(vars@ =~= old(vars)@.union(Set::empty()));
        },
        ConditionOperand::InterpolatedStr(segments) => {
            let mut lb = loop_bindings.duplicate();
            collect_refs_inner(segments.as_slice(), vars, &mut lb);
        },
        ConditionOperand::Path { path } => insert_opt(vars, extract_path_variable(path, loop_bindings)),
        ConditionOperand::Len(p) => insert_opt(vars, extract_path_variable(p, loop_bindings)),
        ConditionOperand::Kind(p) => insert_opt(vars, extract_path_variable(p, loop_bindings)),
        ConditionOperand::Kinds(p) => insert_opt(vars, extract_path_variable(p, loop_bindings)),
        ConditionOperand::Has(p) => insert_opt(vars, extract_path_variable(p, loop_bindings)),
    }
}

/// Adds the root variables of a condition.
fn extract_condition_variables(condition: &Condition, vars: &mut NameSet, loop_bindings: &NameSet)
    ensures
        final(vars)@ == old(vars)@.union(cond_refs(*condition, loop_bindings@)),
    decreases condition,
{
    match condition {
        Condition::Truthy(o) => extract_operand_variables(o, vars, loop_bindings),
        Condition::Not(inner) => extract_condition_variables(inner, vars, loop_bindings),
        Condition::Comparison { left, op: _, right } => {
            extract_operand_variables(left, vars, loop_bindings);
            extract_operand_variables(right, vars, loop_bindings);
            assert(vars@ =~= old(vars)@.union(cond_refs(*condition, loop_bindings@)));
        },
        Condition::And(l, r) => {
            extract_condition_variables(l, vars, loop_bindings);
            extract_condition_variables(r, vars, loop_bindings);
            assert(vars@ =~= old(vars)@.union(cond_refs(*condition, loop_bindings@)));
        },
        Condition::Or(l, r) => {
            extract_condition_variables(l, vars, loop_bindings);
            extract_condition_variables(r, vars, loop_bindings);
            assert(vars@ =~= old(vars)@.union(cond_refs(*condition, loop_bindings@)));
        },
        Condition::MatchVariant { expr, variants: _, is_option: _ } => insert_opt(
            vars,
            extract_path_variable(expr, loop_bindings),
        ),
    }
}

/// Walks `if` branches in order: each condition, then each body.
fn collect_branches(
    branches: &Vec<(Condition, Vec<Segment>)>,
    vars: &mut NameSet,
    loop_bindings: &mut NameSet,
)
    ensures
        final(vars)@ == old(vars)@.union(branches_walk(branches@, old(loop_bindings)@).0),
        final(loop_bindings)@ == branches_walk(branches@, old(loop_bindings)@).1,
    decreases branches@,
{
    let ghost B = branches@;
    let ghost V0 = vars@;
    let ghost L0 = loop_bindings@;
    let mut j: usize = 0;
    assert(B.take(0) =~= Seq::<(Condition, Vec<Segment>)>::empty());
    while j < branches.len()
        invariant
            j <= B.len(),
            B == branches@,
            vars@ == V0.union(branches_walk(B.take(j as int), L0).0),
            loop_bindings@ == branches_walk(B.take(j as int), L0).1,
        decreases B.len() - j,
    {
        assert(B.take(j + 1).drop_last() =~= B.take(j as int));
        assert(B.take(j + 1).last() == B[j as int]);
        extract_condition_variables(&branches[j].0, vars, loop_bindings);
        collect_refs_inner(branches[j].1.as_slice(), vars, loop_bindings);
        assert(vars@ =~= V0.union(branches_walk(B.take(j + 1), L0).0));
        j = j + 1;
    }
    assert(B.take(B.len() as int) =~= B);
}

/// Walks `match` arms in order: labels, guard, then body.
fn collect_arms(arms: &Vec<MatchArm>, vars: &mut NameSet, loop_bindings: &mut NameSet)
    ensures
        final(vars)@ == old(vars)@.union(arms_walk(arms@, old(loop_bindings)@).0),
        final(loop_bindings)@ == arms_walk(arms@, old(loop_bindings)@).1,
    decreases arms@,
{
    let ghost A = arms@;
    let ghost V0 = vars@;
    let ghost L0 = loop_bindings@;
    let mut j: usize = 0;
    assert(A.take(0) =~= Seq::<MatchArm>::empty());
    while j < arms.len()
        invariant
            j <= A.len(),
            A == arms@,
            vars@ == V0.union(arms_walk(A.take(j as int), L0).0),
            loop_bindings@ == arms_walk(A.take(j as int), L0).1,
        decreases A.len() - j,
    {
        assert(A.take(j + 1).drop_last() =~= A.take(j as int));
        assert(A.take(j + 1).last() == A[j as int]);
        let arm = &arms[j];
        extract_label_variables(&arm.variants, vars, loop_bindings);
        match &arm.guard {
            Some(g) => extract_condition_variables(g, vars, loop_bindings),
            None => {},
        }
        collect_refs_inner(arm.body.as_slice(), vars, loop_bindings);
        assert(vars@ =~= V0.union(arms_walk(A.take(j + 1), L0).0));
        j = j + 1;
    }
    assert(A.take(A.len() as int) =~= A);
}

/// Walks segments in order, adding the root variables they reference to
/// `vars`; `loop_bindings` holds the loop bindings in scope and is left as
/// the walk leaves it.
fn collect_refs_inner(segments: &[Segment], vars: &mut NameSet, loop_bindings: &mut NameSet)
    ensures
        final(vars)@ == old(vars)@.union(segs_walk(segments@, old(loop_bindings)@).0),
        final(loop_bindings)@ == segs_walk(segments@, old(loop_bindings)@).1,
    decreases segments@,
{
    let ghost S = segments@;
    let ghost V0 = vars@;
    let ghost L0 = loop_bindings@;
    let mut i: usize = 0;
    assert(S.take(0) =~= Seq::<Segment>::empty());
    while i < segments.len()
        invariant
            i <= S.len(),
            S == segments@,
            vars@ == V0.union(segs_walk(S.take(i as int), L0).0),
            loop_bindings@ == segs_walk(S.take(i as int), L0).1,
        decreases S.len() - i,
    {
        assert(S.take(i + 1).drop_last() =~= S.take(i as int));
        assert(S.take(i + 1).last() == S[i as int]);
        let ghost Vb = vars@;
        let ghost Lb = loop_bindings@;
        let seg = &segments[i];
        match seg {
            Segment::Static(_) => {},
            Segment::Raw(_) => {},
            Segment::Comment(refs) => {
                let mut j: usize = 0;
                assert(refs@.take(0) =~= Seq::<String>::empty());
                while j < refs.len()
                    invariant
                        j <= refs@.len(),
                        vars@ == Vb.union(string_set(refs@.take(j as int))),
                    decreases refs@.len() - j,
                {
                    assert(refs@.take(j + 1).drop_last() =~= refs@.take(j as int));
                    assert(refs@.take(j + 1).last() == refs@[j as int]);
                    vars.insert(refs[j].clone());
                    assert(vars@ =~= Vb.union(string_set(refs@.take(j + 1))));
                    j = j + 1;
                }
                assert(refs@.take(refs@.len() as int) =~= refs@);
            },
            Segment::Expr { expr } => {
                extract_expr_variables(expr, vars, loop_bindings);
            },
            Segment::ForLoop { binding, list_expr, body, else_body } => {
                extract_expr_variables(list_expr, vars, loop_bindings);
                loop_bindings.insert(binding.clone());
                assert(loop_bindings@ == Lb.insert(binding@));
                collect_refs_inner(body.as_slice(), vars, loop_bindings);
                let ghost l1 = segs_walk(body@, Lb.insert(binding@)).1;
                assert(loop_bindings@ == l1);
                loop_bindings.remove(binding.as_str());
                assert(loop_bindings@ == l1.remove(binding@));
                collect_refs_inner(else_body.as_slice(), vars, loop_bindings);
                assert(loop_bindings@ == segs_walk(else_body@, l1.remove(binding@)).1);
            },
            Segment::If { branches, else_body } => {
                collect_branches(branches, vars, loop_bindings);
                collect_refs_inner(else_body.as_slice(), vars, loop_bindings);
            },
            Segment::Include(inc) => {
                extract_include_variables(inc, vars, loop_bindings);
            },
            Segment::Match { expr, arms } => {
                let ec = chars_of(expr.as_str());
                insert_opt(vars, root_variable_chars(ec.as_slice(), loop_bindings));
                collect_arms(arms, vars, loop_bindings);
            },
            Segment::Panic(segs) => {
                collect_refs_inner(segs.as_slice(), vars, loop_bindings);
            },
        }
        assert(vars@ =~= Vb.union(seg_walk(S[i as int], Lb).0));
        assert(loop_bindings@ == seg_walk(S[i as int], Lb).1);
        assert(vars@ =~= V0.union(segs_walk(S.take(i + 1), L0).0));
        i = i + 1;
    }
    assert(S.take(S.len() as int) =~= S);
}

/// The root parameter names that a compiled segment tree references, with
/// loop bindings and literals excluded.
pub fn collect_referenced_params(segments: &[Segment]) -> (r: NameSet)
    ensures
        r@ == segs_walk(segments@, Set::empty()).0,
{
    let mut vars = NameSet::new();
    let mut loop_bindings = NameSet::new();
    collect_refs_inner(segments, &mut vars, &mut loop_bindings);
    assert(vars@ =~= segs_walk(segments@, Set::empty()).0);
    vars
}

} // verus!
