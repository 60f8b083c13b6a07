//! Checks over the whole frontmatter: each name is declared once across
//! `params:`, `consts:` and `env:`, and each struct or list type alias is
//! used (unless `allow_unused: true`).
use vstd::prelude::*;

use super::decls::{decls_view, DeclV};
use super::imported::string_views;
use super::lists::{decl_parts, list_items, parse_list_items, split_decl};
use super::resolve::opt_chars;
use crate::error::{Fault, TemplateError};
use crate::numeric::{ident_char, is_ident_char};
use crate::text::{matches_at, occurs_at, string_of, views};
use crate::types::{type_views, TypeMap, TypeV, VarDecl, VarType};

verus! {

// ---------------------------------------------------------------------------
// Names declared twice
// ---------------------------------------------------------------------------
/// The names of params, consts and env declarations, in that order.
pub open spec fn all_names(params: Seq<DeclV>, consts: Seq<DeclV>, env: Seq<DeclV>) -> Seq<Seq<char>> {
    (params + consts + env).map_values(|d: DeclV| d.name)
}

/// The first name from position `j` on that repeats an earlier one.
pub open spec fn first_repeat_from(ns: Seq<Seq<char>>, j: int) -> Option<Seq<char>>
    decreases ns.len() - j,
{
    if j < 0 || j >= ns.len() {
        None
    } else if ns.take(j).contains(ns[j]) {
        Some(ns[j])
    } else {
        first_repeat_from(ns, j + 1)
    }
}

// ---------------------------------------------------------------------------
// Unused type aliases
// ---------------------------------------------------------------------------
/// `w` stands at position `p` of `text` as a whole word, not after a `.`.
pub open spec fn word_at(text: Seq<char>, p: int, w: Seq<char>) -> bool {
    &&& occurs_at(text, p, w)
    &&& (p == 0 || !(is_ident_char(text[p - 1]) || text[p - 1] == '.'))
    &&& (p + w.len() == text.len() || !is_ident_char(text[p + w.len()]))
}

/// `text` mentions the word `w`.
pub open spec fn mentions(text: Seq<char>, w: Seq<char>) -> bool {
    exists|p: int| word_at(text, p, w)
}

pub open spec fn mentions_opt(text: Option<Seq<char>>, w: Seq<char>) -> bool {
    match text {
        Some(t) => mentions(t, w),
        None => false,
    }
}

/// The alias definitions of the `types:` section, as (name, type text).
pub open spec fn alias_items(types_raw: Option<Seq<char>>) -> Seq<(Seq<char>, Seq<char>)> {
    match types_raw {
        None => Seq::empty(),
        Some(raw) => match list_items(raw) {
            Err(_) => Seq::empty(),
            Ok(items) => items.map_values(
                |it: Seq<char>|
                    match decl_parts(it) {
                        Ok((n, t, _)) => (n, t),
                        Err(_) => (Seq::empty(), Seq::empty()),
                    },
            ),
        },
    }
}

/// The section texts where a type alias may be used.
pub struct UsageV {
    pub params: Option<Seq<char>>,
    pub consts: Option<Seq<char>>,
    pub env: Option<Seq<char>>,
}

/// Alias `a` is used: a declaration section mentions it, or the type of
/// another alias does.
pub open spec fn alias_used(a: Seq<char>, items: Seq<(Seq<char>, Seq<char>)>, u: UsageV) -> bool {
    ||| mentions_opt(u.params, a)
    ||| mentions_opt(u.consts, a)
    ||| mentions_opt(u.env, a)
    ||| exists|j: int| 0 <= j < items.len() && #[trigger] items[j].0 != a && mentions(items[j].1, a)
}

/// The first alias definition from position `k` on whose alias is a struct
/// or list type (enums are always usable as constants) and is not used.
pub open spec fn first_unused_from(
    items: Seq<(Seq<char>, Seq<char>)>,
    k: int,
    aliases: Map<Seq<char>, TypeV>,
    u: UsageV,
) -> Option<Seq<char>>
    decreases items.len() - k,
{
    if k < 0 || k >= items.len() {
        None
    } else {
        let a = items[k].0;
        if aliases.contains_key(a) && !(aliases[a] is Enum) && !alias_used(a, items, u) {
            Some(a)
        } else {
            first_unused_from(items, k + 1, aliases, u)
        }
    }
}

/// The collision and usage rules over a parsed frontmatter.
pub open spec fn collision_rules(
    params: Seq<DeclV>,
    consts: Seq<DeclV>,
    env: Seq<DeclV>,
    allow_unused: bool,
    types_raw: Option<Seq<char>>,
    aliases: Map<Seq<char>, TypeV>,
    u: UsageV,
) -> Result<(), Fault> {
    match first_repeat_from(all_names(params, consts, env), 0) {
        Some(n) => Err(Fault::DuplicateName(n)),
        None => if allow_unused {
            Ok(())
        } else {
            match first_unused_from(alias_items(types_raw), 0, aliases, u) {
                Some(a) => Err(Fault::UnusedTypeAlias(a)),
                None => Ok(()),
            }
        },
    }
}

// ---------------------------------------------------------------------------
// Executable checks
// ---------------------------------------------------------------------------
/// Whether `w` stands at position `p` of `text` as a whole word.
fn word_at_exec(text: &[char], p: usize, w: &[char]) -> (r: bool)
    ensures
        r == word_at(text@, p as int, w@),
{
    if !matches_at(text, p, w) {
        return false;
    }
    let before_ok = p == 0 || !(ident_char(text[p - 1]) || text[p - 1] == '.');
    let e = p + w.len();
    let after_ok = e == text.len() || !ident_char(text[e]);
    before_ok && after_ok
}

/// Whether `text` mentions the word `w`.
pub fn mentions_word(text: &[char], w: &[char]) -> (r: bool)
    ensures
        r == mentions(text@, w@),
{
    let n = text.len();
    let mut p: usize = 0;
    while p < n
        invariant
            p <= n == text@.len(),
            forall|q: int| 0 <= q < p ==> !word_at(text@, q, w@),
        decreases n - p,
    {
        if word_at_exec(text, p, w) {
            return true;
        }
        p = p + 1;
    }
    if word_at_exec(text, n, w) {
        return true;
    }
    assert forall|q: int| !word_at(text@, q, w@) by {
        if 0 <= q < n {
        } else if q > n {
            assert(!occurs_at(text@, q, w@));
        }
    }
    false
}

fn mentions_opt_exec(text: &Option<Vec<char>>, w: &[char]) -> (r: bool)
    ensures
        r == mentions_opt(opt_chars(*text), w@),
{
    match text {
        Some(t) => mentions_word(t.as_slice(), w),
        None => false,
    }
}

/// The first name of `ns` that repeats an earlier one.
fn first_repeat(ns: &Vec<String>) -> (r: Option<usize>)
    ensures
        match r {
            Some(j) => j < ns@.len() && first_repeat_from(string_views(ns@), 0) == Some(
                ns@[j as int]@,
            ),
            None => first_repeat_from(string_views(ns@), 0) is None,
        },
{
    let ghost N = string_views(ns@);
    let n = ns.len();
    let mut j: usize = 0;
    while j < n
        invariant
            j <= n == ns@.len(),
            N == string_views(ns@),
            first_repeat_from(N, 0) == first_repeat_from(N, j as int),
        decreases n - j,
    {
        let mut i: usize = 0;
        let mut seen = false;
        while i < j
            invariant
                i <= j < n == ns@.len(),
                N == string_views(ns@),
                seen == exists|q: int| 0 <= q < i && N[q] == N[j as int],
            decreases j - i,
        {
            assert(N[i as int] == ns@[i as int]@);
            assert(N[j as int] == ns@[j as int]@);
            if ns[i] == ns[j] {
                seen = true;
            }
            i = i + 1;
        }
        assert(seen == N.take(j as int).contains(N[j as int])) by {
            if seen {
                let q = choose|q: int| 0 <= q < j && N[q] == N[j as int];
                assert(N.take(j as int)[q] == N[j as int]);
            }
            if N.take(j as int).contains(N[j as int]) {
                let q = choose|q: int| 0 <= q < j && N.take(j as int)[q] == N[j as int];
                assert(N[q] == N[j as int]);
            }
        }
        if seen {
            return Some(j);
        }
        j = j + 1;
    }
    None
}

/// The names of the declarations, in order.
pub fn push_names(out: &mut Vec<String>, ds: &Vec<VarDecl>)
    ensures
        string_views(final(out)@) == string_views(old(out)@) + decls_view(
            ds@,
        ).map_values(|d: DeclV| d.name),
{
    let ghost O = string_views(old(out)@);
    let mut i: usize = 0;
    while i < ds.len()
        invariant
            i <= ds@.len(),
            O == string_views(old(out)@),
            string_views(out@) == O + decls_view(ds@).take(i as int).map_values(
                |d: DeclV| d.name,
            ),
        decreases ds@.len() - i,
    {
        let ghost ob = out@;
        let nm = ds[i].name.clone();
        out.push(nm);
        assert(decls_view(ds@)[i as int].name == ds@[i as int].name@);
        assert(string_views(out@) =~= string_views(ob).push(nm@));
        assert(decls_view(ds@).take(i + 1).map_values(|d: DeclV| d.name) =~= decls_view(ds@).take(
            i as int,
        ).map_values(|d: DeclV| d.name).push(nm@));
        assert(string_views(out@) =~= O + decls_view(ds@).take(i + 1).map_values(
            |d: DeclV| d.name,
        ));
        i = i + 1;
    }
    assert(decls_view(ds@).take(ds@.len() as int) =~= decls_view(ds@));
}

/// The collision and usage rules over a parsed frontmatter.
pub fn validate_collision_rules(
    params: &Vec<VarDecl>,
    consts: &Vec<VarDecl>,
    env: &Vec<VarDecl>,
    allow_unused: bool,
    types_raw: &Option<Vec<char>>,
    aliases: &TypeMap,
    params_raw: &Option<Vec<char>>,
    consts_raw: &Option<Vec<char>>,
    env_raw: &Option<Vec<char>>,
) -> (r: Result<(), TemplateError>)
    ensures
        match r {
            Ok(()) => collision_rules(
                decls_view(params@),
                decls_view(consts@),
                decls_view(env@),
                allow_unused,
                opt_chars(*types_raw),
                type_views(aliases@),
                UsageV {
                    params: opt_chars(*params_raw),
                    consts: opt_chars(*consts_raw),
                    env: opt_chars(*env_raw),
                },
            ) == Ok::<(), Fault>(()),
            Err(e) => collision_rules(
                decls_view(params@),
                decls_view(consts@),
                decls_view(env@),
                allow_unused,
                opt_chars(*types_raw),
                type_views(aliases@),
                UsageV {
                    params: opt_chars(*params_raw),
                    consts: opt_chars(*consts_raw),
                    env: opt_chars(*env_raw),
                },
            ) == Err::<(), Fault>(e@),
        },
{
    let ghost U = UsageV {
        params: opt_chars(*params_raw),
        consts: opt_chars(*consts_raw),
        env: opt_chars(*env_raw),
    };
    let mut names: Vec<String> = Vec::new();
    push_names(&mut names, params);
    push_names(&mut names, consts);
    push_names(&mut names, env);
    proof {
        let P = decls_view(params@);
        let C = decls_view(consts@);
        let E = decls_view(env@);
        assert(string_views(Seq::<String>::empty()) =~= Seq::<Seq<char>>::empty());
        assert(string_views(names@) =~= all_names(P, C, E));
    }
    match first_repeat(&names) {
        Some(j) => {
            return Err(TemplateError::DuplicateName(names[j].clone()));
        },
        None => {},
    }
    if allow_unused {
        return Ok(());
    }
    let raw = match types_raw {
        None => {
            return Ok(());
        },
        Some(raw) => raw,
    };
    let items = match parse_list_items(raw.as_slice()) {
        Ok(items) => items,
        Err(_) => {
            return Ok(());
        },
    };
    let ghost I = views(items@);
    let mut parts: Vec<(Vec<char>, Vec<char>)> = Vec::new();
    let mut k: usize = 0;
    while k < items.len()
        invariant
            k <= items@.len(),
            I == views(items@),
            parts@.len() == k,
            forall|j: int|
                0 <= j < k ==> (#[trigger] parts@[j]).0@ == alias_items(opt_chars(*types_raw))[j].0
                    && parts@[j].1@ == alias_items(opt_chars(*types_raw))[j].1,
            alias_items(opt_chars(*types_raw)) == I.map_values(
                |it: Seq<char>|
                    match decl_parts(it) {
                        Ok((n, t, _)) => (n, t),
                        Err(_) => (Seq::empty(), Seq::empty()),
                    },
            ),
        decreases items@.len() - k,
    {
        assert(I[k as int] == items@[k as int]@);
        match split_decl(items[k].as_slice()) {
            Ok((n, t, _)) => {
                parts.push((n, t));
            },
            Err(_) => {
                parts.push((Vec::new(), Vec::new()));
            },
        }
        k = k + 1;
    }
    let ghost A = alias_items(opt_chars(*types_raw));
    let ghost T = type_views(aliases@);
    let m = parts.len();
    let mut k: usize = 0;
    while k < m
        invariant
            k <= m == parts@.len() == A.len(),
            A == alias_items(opt_chars(*types_raw)),
            T == type_views(aliases@),
            U == (UsageV {
                params: opt_chars(*params_raw),
                consts: opt_chars(*consts_raw),
                env: opt_chars(*env_raw),
            }),
            forall|j: int| 0 <= j < m ==> (#[trigger] parts@[j]).0@ == A[j].0 && parts@[j].1@ == A[j].1,
            first_unused_from(A, 0, T, U) == first_unused_from(A, k as int, T, U),
            first_repeat_from(all_names(decls_view(params@), decls_view(consts@), decls_view(env@)), 0) is None,
            !allow_unused,
        decreases m - k,
    {
        let a = parts[k].0.as_slice();
        let key = string_of(a);
        let is_struct_like = match aliases.get(key.as_str()) {
            Some(t) => match t {
                VarType::Enum(_) => false,
                _ => true,
            },
            None => false,
        };
        if is_struct_like {
            let mp = mentions_opt_exec(params_raw, a);
            let mc = mentions_opt_exec(consts_raw, a);
            let me = mentions_opt_exec(env_raw, a);
            assert(mp == mentions_opt(U.params, a@));
            assert(mc == mentions_opt(U.consts, a@));
            assert(me == mentions_opt(U.env, a@));
            let mut used = mp || mc || me;
            let mut j: usize = 0;
            while j < m && !used
                invariant
                    j <= m == parts@.len() == A.len(),
                    k < m,
                    a@ == A[k as int].0,
                    forall|q: int| 0 <= q < m ==> (#[trigger] parts@[q]).0@ == A[q].0 && parts@[q].1@ == A[q].1,
                    !used ==> forall|q: int| 0 <= q < j ==> !(#[trigger] A[q].0 != a@ && mentions(A[q].1, a@)),
                    used ==> alias_used(a@, A, U),
                    (mentions_opt(U.params, a@) || mentions_opt(U.consts, a@) || mentions_opt(U.env, a@)) ==> used,
                decreases m - j,
            {
                let other = !same_name(parts[j].0.as_slice(), a);
                if other && mentions_word(parts[j].1.as_slice(), a) {
                    used = true;
                }
                j = j + 1;
            }
            if !used {
                proof {
                    assert(!alias_used(a@, A, U)) by {
                        if exists|q: int| 0 <= q < A.len() && #[trigger] A[q].0 != a@ && mentions(A[q].1, a@) {
                            let q = choose|q: int| 0 <= q < A.len() && #[trigger] A[q].0 != a@ && mentions(A[q].1, a@);
                        }
                    }
                    assert(T.contains_key(a@) && !(T[a@] is Enum));
                    assert(A[k as int].0 == a@);
                    assert(first_unused_from(A, k as int, T, U) == Some(a@));
                    assert(key@ == a@);
                    assert(first_repeat_from(all_names(decls_view(params@), decls_view(consts@), decls_view(env@)), 0) is None);
                    assert(alias_items(opt_chars(*types_raw)) == A);
                    assert(first_unused_from(alias_items(opt_chars(*types_raw)), 0, type_views(aliases@), U) == Some(a@));
                }
                return Err(TemplateError::UnusedTypeAlias(key));
            }
        }
        proof {
            assert(first_unused_from(A, k as int, T, U) == first_unused_from(A, k + 1, T, U));
        }
        k = k + 1;
    }
    Ok(())
}

fn same_name(a: &[char], b: &[char]) -> (r: bool)
    ensures
        r == (a@ == b@),
{
    crate::text::same_chars(a, b)
}

} // verus!
