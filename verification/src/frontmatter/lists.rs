//! List values of frontmatter sections (`[a, b]` or `- item` lines) and the
//! parts of a declaration (`name = type := default`).
use vstd::prelude::*;

use crate::error::{Fault, TemplateError};
use crate::numeric::{check_identifier, is_identifier};
use crate::scan::{find_top, lemma_scan, scan, split_top, top_split};
use crate::text::{lines, slice_of, split_lines, string_of, trim, trimmed, views};

verus! {

pub open spec fn trims(ps: Seq<Seq<char>>) -> Seq<Seq<char>> {
    ps.map_values(|p: Seq<char>| trim(p))
}

pub open spec fn all_nonempty(ps: Seq<Seq<char>>) -> bool {
    forall|i: int| 0 <= i < ps.len() ==> #[trigger] ps[i].len() > 0
}

/// A block line `- item`, trimmed, gives `item`.
pub open spec fn block_item(l: Seq<char>) -> Seq<char> {
    trim(trim(l).skip(1))
}

pub open spec fn is_block_line(l: Seq<char>) -> bool {
    trim(l).len() > 0 && trim(l)[0] == '-' && block_item(l).len() > 0
}

/// The items of a section value: `[a, b, ...]` (split at commas outside
/// brackets and quotes) or lines `- a`, `- b`; empty text is the empty list.
pub open spec fn list_items(rest: Seq<char>) -> Result<Seq<Seq<char>>, Fault> {
    let t = trim(rest);
    if t.len() == 0 {
        Ok(Seq::empty())
    } else if t.len() >= 2 && t[0] == '[' && t.last() == ']' {
        let inner = t.subrange(1, t.len() - 1);
        if trim(inner).len() == 0 {
            Ok(Seq::empty())
        } else {
            let ps = trims(top_split(inner, seq![','], true));
            if all_nonempty(ps) {
                Ok(ps)
            } else {
                Err(Fault::MalformedList(t))
            }
        }
    } else if t[0] == '-' {
        let ls = lines(t);
        if forall|i: int| 0 <= i < ls.len() ==> is_block_line(#[trigger] ls[i]) {
            Ok(ls.map_values(|l: Seq<char>| block_item(l)))
        } else {
            Err(Fault::MalformedList(t))
        }
    } else {
        Err(Fault::MalformedList(t))
    }
}

/// The items of a section value.
pub fn parse_list_items(rest: &[char]) -> (r: Result<Vec<Vec<char>>, TemplateError>)
    ensures
        match r {
            Ok(items) => list_items(rest@) == Ok::<Seq<Seq<char>>, Fault>(views(items@)),
            Err(e) => list_items(rest@) == Err::<Seq<Seq<char>>, Fault>(e@),
        },
{
    let t = trimmed(rest);
    let n = t.len();
    if n == 0 {
        let empty: Vec<Vec<char>> = Vec::new();
        assert(views(empty@) =~= Seq::<Seq<char>>::empty());
        return Ok(empty);
    }
    if n >= 2 && t[0] == '[' && t[n - 1] == ']' {
        let inner = slice_of(t.as_slice(), 1, n - 1);
        let ti = trimmed(inner.as_slice());
        if ti.len() == 0 {
            let empty: Vec<Vec<char>> = Vec::new();
            assert(views(empty@) =~= Seq::<Seq<char>>::empty());
            return Ok(empty);
        }
        let c = vec![','];
        assert(c@ =~= seq![',']);
        let ps = split_top(inner.as_slice(), c.as_slice(), true);
        let ghost P = views(ps@);
        let mut out: Vec<Vec<char>> = Vec::new();
        let mut k: usize = 0;
        while k < ps.len()
            invariant
                k <= ps@.len(),
                P == views(ps@),
                P == top_split(inner@, seq![','], true),
                t@ == trim(rest@),
                n == t@.len(),
                n >= 2,
                t@[0] == '[',
                t@[n - 1] == ']',
                trim(inner@).len() != 0,
                inner@ == t@.subrange(1, t@.len() - 1),
                views(out@) == trims(P).take(k as int),
                all_nonempty(views(out@)),
            decreases ps@.len() - k,
        {
            let p = trimmed(ps[k].as_slice());
            assert(trims(P)[k as int] == p@);
            if p.len() == 0 {
                assert(!all_nonempty(trims(P)));
                return Err(TemplateError::MalformedList(string_of(t.as_slice())));
            }
            let ghost before = views(out@);
            out.push(p);
            assert(views(out@) =~= before.push(p@));
            assert(trims(P).take(k + 1) =~= trims(P).take(k as int).push(p@));
            k = k + 1;
        }
        assert(trims(P).take(ps@.len() as int) =~= trims(P));
        return Ok(out);
    }
    if t[0] == '-' {
        let ls = split_lines(t.as_slice());
        let ghost L = views(ls@);
        let mut out: Vec<Vec<char>> = Vec::new();
        let mut k: usize = 0;
        while k < ls.len()
            invariant
                k <= ls@.len(),
                L == views(ls@),
                t@ == trim(rest@),
                n == t@.len(),
                n > 0,
                t@[0] == '-',
                !(n >= 2 && t@[0] == '[' && t@[n - 1] == ']'),
                L == lines(t@),
                views(out@) == L.take(k as int).map_values(|l: Seq<char>| block_item(l)),
                forall|i: int| 0 <= i < k ==> is_block_line(#[trigger] L[i]),
            decreases ls@.len() - k,
        {
            let line = &ls[k];
            assert(line@ == L[k as int]);
            let u = trimmed(line.as_slice());
            let un = u.len();
            if un == 0 || u[0] != '-' {
                assert(!is_block_line(L[k as int]));
                return Err(TemplateError::MalformedList(string_of(t.as_slice())));
            }
            let rest_u = slice_of(u.as_slice(), 1, un);
            assert(rest_u@ =~= u@.skip(1));
            let item = trimmed(rest_u.as_slice());
            if item.len() == 0 {
                assert(!is_block_line(L[k as int]));
                return Err(TemplateError::MalformedList(string_of(t.as_slice())));
            }
            let ghost before = views(out@);
            out.push(item);
            assert(views(out@) =~= before.push(item@));
            assert(L.take(k + 1).map_values(|l: Seq<char>| block_item(l)) =~= L.take(
                k as int,
            ).map_values(|l: Seq<char>| block_item(l)).push(item@));
            k = k + 1;
        }
        assert(L.take(ls@.len() as int) =~= L);
        return Ok(out);
    }
    Err(TemplateError::MalformedList(string_of(t.as_slice())))
}

// ---------------------------------------------------------------------------
// Declarations
// ---------------------------------------------------------------------------
pub open spec fn assign_op() -> Seq<char> {
    seq![':', '=']
}

/// A declaration `name = type` with an optional `:= default`: the name, the
/// type text and the trimmed default text.
pub open spec fn decl_parts(item: Seq<char>) -> Result<(Seq<char>, Seq<char>, Option<Seq<char>>), Fault> {
    let (head, dflt) = match scan(item, assign_op(), 0, 0, true) {
        Some(k) => if 0 <= k && k + 2 <= item.len() {
            (item.take(k), Some(trim(item.skip(k + 2))))
        } else {
            (item, None)
        },
        None => (item, None),
    };
    match scan(head, seq!['='], 0, 0, true) {
        None => Err(Fault::MissingTypeAnnotation(trim(item))),
        Some(e) => if 0 <= e < head.len() {
            let name = trim(head.take(e));
            if !is_identifier(name) {
                Err(Fault::InvalidName(name))
            } else {
                Ok((name, trim(head.skip(e + 1)), dflt))
            }
        } else {
            Err(Fault::MissingTypeAnnotation(trim(item)))
        },
    }
}

/// The parts of a declaration `name = type := default`.
pub fn split_decl(item: &[char]) -> (r: Result<(Vec<char>, Vec<char>, Option<Vec<char>>), TemplateError>)
    ensures
        match r {
            Ok((n, t, d)) => decl_parts(item@) == Ok::<_, Fault>(
                (
                    n@,
                    t@,
                    match d {
                        Some(x) => Some(x@),
                        None => None::<Seq<char>>,
                    },
                ),
            ),
            Err(e) => decl_parts(item@) == Err::<(Seq<char>, Seq<char>, Option<Seq<char>>), Fault>(
                e@,
            ),
        },
{
    let n = item.len();
    let op = vec![':', '='];
    assert(op@ =~= assign_op());
    proof {
        lemma_scan(item@, assign_op(), 0, 0, true);
    }
    let (head, dflt): (Vec<char>, Option<Vec<char>>) = match find_top(item, op.as_slice(), 0, true) {
        Some(k) => {
            assert(k + 2 <= n);
            let h = slice_of(item, 0, k);
            assert(h@ =~= item@.take(k as int));
            let d = slice_of(item, k + 2, n);
            assert(d@ =~= item@.skip(k + 2));
            (h, Some(trimmed(d.as_slice())))
        },
        None => (slice_of(item, 0, n), None),
    };
    assert(item@.subrange(0, n as int) =~= item@);
    let eq = vec!['='];
    assert(eq@ =~= seq!['=']);
    proof {
        lemma_scan(head@, seq!['='], 0, 0, true);
    }
    let hn = head.len();
    match find_top(head.as_slice(), eq.as_slice(), 0, true) {
        None => Err(TemplateError::MissingTypeAnnotation(string_of(trimmed(item).as_slice()))),
        Some(e) => {
            assert(e + 1 <= hn);
            let nm_raw = slice_of(head.as_slice(), 0, e);
            assert(nm_raw@ =~= head@.take(e as int));
            let name = trimmed(nm_raw.as_slice());
            if !check_identifier(name.as_slice()) {
                return Err(TemplateError::InvalidName(string_of(name.as_slice())));
            }
            let ty_raw = slice_of(head.as_slice(), e + 1, hn);
            assert(ty_raw@ =~= head@.skip(e + 1));
            let ty = trimmed(ty_raw.as_slice());
            Ok((name, ty, dflt))
        },
    }
}

} // verus!
