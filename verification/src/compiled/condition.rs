//! Parsing condition text into a [`Condition`].
//!
//! Grammar:
//!   condition  = or_expr
//!   or_expr    = and_expr ( "||" and_expr )*
//!   and_expr   = unary_expr ( "&&" unary_expr )*
//!   unary_expr = "!" unary_expr | "(" or_expr ")" | primary
//!   primary    = match_as_cond | comparison | truthiness
//!   match_as_cond = "match" path "case" variant_list
//!   comparison = operand cmp_op operand
//!   truthiness = operand
use vstd::prelude::*;

use super::analysis::{builtin_call, expr_open, expr_close};
use super::{ComparisonOp, CompiledPath, Condition, ConditionOperand, CompiledExpr, Segment};
use crate::error::{Fault, TemplateError};
use crate::frontmatter::lists::trims;
use crate::literals::{literal, quoted_inner};
use crate::scan::{find_top, lemma_scan, lemma_split_from, scan, split_from, split_top, top_find, top_split};
use crate::text::{
    chars_of, contains, find_at, find_char_at, find_char_from, find_from, has_infix, has_prefix,
    lemma_find_char_from, lemma_find_from, lemma_trim_len, same_chars, slice_of, starts_with,
    string_of, trim, trimmed, views,
};
use crate::value::{Value, ValueV};

verus! {

// ---------------------------------------------------------------------------
// The content of conditions
// ---------------------------------------------------------------------------
/// A part of an interpolated string: text, or a `{{ path }}`.
pub enum PieceV {
    Text(Seq<char>),
    Var(Seq<Seq<char>>),
}

/// The content of a condition operand.
pub enum OperandV {
    Literal(ValueV),
    Idx(Seq<char>),
    Interpolated(Seq<PieceV>),
    Path(Seq<Seq<char>>),
    Len(Seq<Seq<char>>),
    Kind(Seq<Seq<char>>),
    Kinds(Seq<Seq<char>>),
    Has(Seq<Seq<char>>),
}

/// The content of a condition.
pub enum CondV {
    Truthy(OperandV),
    Not(Box<CondV>),
    Comparison(OperandV, ComparisonOp, OperandV),
    And(Box<CondV>, Box<CondV>),
    Or(Box<CondV>, Box<CondV>),
    MatchVariant(Seq<Seq<char>>, Seq<Seq<char>>, bool),
}

/// The segments of an interpolated string hold the pieces, in order.
pub open spec fn pieces_are(segs: Seq<Segment>, ps: Seq<PieceV>) -> bool {
    &&& segs.len() == ps.len()
    &&& forall|i: int|
        0 <= i < segs.len() ==> match #[trigger] ps[i] {
            PieceV::Text(t) => segs[i] matches Segment::Static(s) && s@ == t,
            PieceV::Var(parts) => segs[i] matches Segment::Expr { expr } && expr matches CompiledExpr::Path(
                p,
            ) && p.parts_view() == parts,
        }
}

/// An operand has the given content.
pub open spec fn operand_is(o: ConditionOperand, v: OperandV) -> bool {
    match v {
        OperandV::Literal(x) => o matches ConditionOperand::Literal(val) && val@ == x,
        OperandV::Idx(b) => o matches ConditionOperand::Idx(s) && s@ == b,
        OperandV::Interpolated(ps) => o matches ConditionOperand::InterpolatedStr(segs) && pieces_are(
            segs@,
            ps,
        ),
        OperandV::Path(parts) => o matches ConditionOperand::Path { path } && path.parts_view()
            == parts,
        OperandV::Len(parts) => o matches ConditionOperand::Len(p) && p.parts_view() == parts,
        OperandV::Kind(parts) => o matches ConditionOperand::Kind(p) && p.parts_view() == parts,
        OperandV::Kinds(parts) => o matches ConditionOperand::Kinds(p) && p.parts_view() == parts,
        OperandV::Has(parts) => o matches ConditionOperand::Has(p) && p.parts_view() == parts,
    }
}

/// A condition has the given content.
pub open spec fn cond_is(c: Condition, v: CondV) -> bool
    decreases c,
{
    match c {
        Condition::Truthy(o) => v matches CondV::Truthy(ov) && operand_is(o, ov),
        Condition::Not(inner) => v matches CondV::Not(iv) && cond_is(*inner, *iv),
        Condition::Comparison { left, op, right } => v matches CondV::Comparison(lv, ov, rv)
            && operand_is(left, lv) && op == ov && operand_is(right, rv),
        Condition::And(l, r) => v matches CondV::And(lv, rv) && cond_is(*l, *lv) && cond_is(
            *r,
            *rv,
        ),
        Condition::Or(l, r) => v matches CondV::Or(lv, rv) && cond_is(*l, *lv) && cond_is(*r, *rv),
        Condition::MatchVariant { expr, variants, is_option } => v matches CondV::MatchVariant(
            pv,
            vs,
            io,
        ) && expr.parts_view() == pv && variants@.map_values(|s: String| s@) == vs && is_option
            == io,
    }
}

// ---------------------------------------------------------------------------
// Operands
// ---------------------------------------------------------------------------
/// The pieces of `s` between occurrences of the character `c`, from `i` on.
pub open spec fn split_char_from(s: Seq<char>, c: char, i: int) -> Seq<Seq<char>>
    decreases s.len() - i,
{
    if i < 0 || i > s.len() {
        Seq::empty()
    } else {
        match find_char_from(s, c, i) {
            Some(k) => if i <= k < s.len() {
                seq![s.subrange(i, k)] + split_char_from(s, c, k + 1)
            } else {
                Seq::empty()
            },
            None => seq![s.subrange(i, s.len() as int)],
        }
    }
}

/// The parts of a dotted path.
pub open spec fn path_parts(s: Seq<char>) -> Seq<Seq<char>> {
    split_char_from(s, '.', 0)
}

/// The pieces of an interpolated string from position `i` on: the text up
/// to each `{{`, and the path inside it up to the next `}}`; text after an
/// unclosed `{{` stays text.
pub open spec fn pieces_from(s: Seq<char>, i: int) -> Seq<PieceV>
    decreases s.len() - i,
{
    if i < 0 || i > s.len() {
        Seq::empty()
    } else {
        match find_from(s, expr_open(), i) {
            None => seq![PieceV::Text(s.subrange(i, s.len() as int))],
            Some(a) => match find_from(s, expr_close(), a + 2) {
                None => seq![PieceV::Text(s.subrange(i, s.len() as int))],
                Some(b) => if i <= a && a + 2 <= b && b + 2 <= s.len() {
                    seq![
                        PieceV::Text(s.subrange(i, a)),
                        PieceV::Var(path_parts(trim(s.subrange(a + 2, b)))),
                    ] + pieces_from(s, b + 2)
                } else {
                    seq![PieceV::Text(s.subrange(i, s.len() as int))]
                },
            },
        }
    }
}

pub open spec fn empty_operand_message() -> Seq<char> {
    "empty operand in condition"@
}

/// The content of the operand that trimmed text `t` denotes: a quoted
/// string (interpolated when it holds `{{`), another literal, a built-in
/// call, or a dotted path.
pub open spec fn operand_of(t: Seq<char>) -> Result<OperandV, Fault> {
    if t.len() == 0 {
        Err(Fault::Syntax(empty_operand_message()))
    } else {
        match quoted_inner(t) {
            Some(inner) => if contains(inner, expr_open()) {
                Ok(OperandV::Interpolated(pieces_from(inner, 0)))
            } else {
                Ok(OperandV::Literal(ValueV::Str(inner)))
            },
            None => match literal(t) {
                Some(v) => Ok(OperandV::Literal(v)),
                None => match builtin_call(t) {
                    Some(open) => {
                        let f = trim(t.take(open));
                        let arg = trim(t.subrange(open + 1, t.len() - 1));
                        if f == seq!['i', 'd', 'x'] {
                            Ok(OperandV::Idx(arg))
                        } else if f == seq!['l', 'e', 'n'] {
                            Ok(OperandV::Len(path_parts(arg)))
                        } else if f == seq!['k', 'i', 'n', 'd'] {
                            Ok(OperandV::Kind(path_parts(arg)))
                        } else if f == seq!['k', 'i', 'n', 'd', 's'] {
                            Ok(OperandV::Kinds(path_parts(arg)))
                        } else {
                            Ok(OperandV::Has(path_parts(arg)))
                        }
                    },
                    None => Ok(OperandV::Path(path_parts(t))),
                },
            },
        }
    }
}

// ---------------------------------------------------------------------------
// The grammar
// ---------------------------------------------------------------------------
pub open spec fn op_or() -> Seq<char> {
    seq!['|', '|']
}

pub open spec fn op_and() -> Seq<char> {
    seq!['&', '&']
}

/// The comparison operators, longest first, with what they denote.
pub open spec fn comparison_ops() -> Seq<(Seq<char>, ComparisonOp)> {
    seq![
        (seq!['=', '='], ComparisonOp::Eq),
        (seq!['!', '='], ComparisonOp::Ne),
        (seq!['<', '='], ComparisonOp::Le),
        (seq!['>', '='], ComparisonOp::Ge),
        (seq!['<'], ComparisonOp::Lt),
        (seq!['>'], ComparisonOp::Gt),
        (seq![' ', 'i', 'n', ' '], ComparisonOp::In),
    ]
}

pub open spec fn match_prefix() -> Seq<char> {
    seq!['m', 'a', 't', 'c', 'h', ' ']
}

pub open spec fn case_keyword() -> Seq<char> {
    seq![' ', 'c', 'a', 's', 'e', ' ']
}

/// The pieces of `s` between top-level occurrences of `d`, trimmed; a
/// dangling `d` or an empty text is an error.
pub open spec fn top_level_parts(s: Seq<char>, d: Seq<char>) -> Result<Seq<Seq<char>>, Fault> {
    let ps = trims(top_split(s, d, false));
    if ps.len() > 0 && ps.last().len() > 0 {
        Ok(ps)
    } else if ps.len() > 1 {
        Err(Fault::Syntax("dangling '"@ + d + "' operator: missing right-hand expression"@))
    } else {
        Err(Fault::Syntax("empty expression in condition"@))
    }
}

/// Position of the `)` that closes the `(` before position `i`, at nesting
/// `depth`.
pub open spec fn paren_close_from(s: Seq<char>, i: int, depth: nat) -> Option<int>
    decreases s.len() - i,
{
    if i < 0 || i >= s.len() {
        None
    } else if s[i] == '(' {
        paren_close_from(s, i + 1, depth + 1)
    } else if s[i] == ')' {
        if depth <= 1 {
            Some(i)
        } else {
            paren_close_from(s, i + 1, (depth - 1) as nat)
        }
    } else {
        paren_close_from(s, i + 1, depth)
    }
}

/// The inside of `s` when its first `(` is closed by its last character.
pub open spec fn strip_balanced(s: Seq<char>) -> Option<Seq<char>> {
    if s.len() > 0 && s[0] == '(' {
        match paren_close_from(s, 1, 1) {
            Some(i) => if i == s.len() - 1 {
                Some(s.subrange(1, i))
            } else {
                None
            },
            None => None,
        }
    } else {
        None
    }
}

/// `match expr case A | B`: the path and the variant names.
pub open spec fn match_condition(s: Seq<char>) -> Result<CondV, Fault> {
    match find_from(s, case_keyword(), 0) {
        None => Err(
            Fault::Syntax("match-as-condition: expected 'case' keyword after expression"@),
        ),
        Some(p) => {
            let e = trim(s.take(p));
            let vs = trim(s.skip(p + 6));
            if e.len() == 0 {
                Err(Fault::Syntax("match-as-condition: empty expression"@))
            } else if vs.len() == 0 {
                Err(Fault::Syntax("match-as-condition: empty variant name after 'case'"@))
            } else {
                let names = trims(split_char_from(vs, '|', 0));
                Ok(
                    CondV::MatchVariant(
                        path_parts(e),
                        names,
                        names.contains(seq!['S', 'o', 'm', 'e']) || names.contains(
                            seq!['N', 'o', 'n', 'e'],
                        ),
                    ),
                )
            }
        },
    }
}

/// A comparison at the first operator (in `comparison_ops` order, from
/// position `k` on) that occurs at the top level of `t`.
pub open spec fn comparison_from(t: Seq<char>, k: int) -> Option<Result<CondV, Fault>>
    decreases 7 - k,
{
    if k < 0 || k >= 7 {
        None
    } else {
        let (op, cmp) = comparison_ops()[k];
        match top_find(t, op, false) {
            Some(idx) => Some(
                match operand_of(trim(t.take(idx))) {
                    Err(e) => Err(e),
                    Ok(l) => match operand_of(trim(t.skip(idx + op.len()))) {
                        Err(e) => Err(e),
                        Ok(r) => Ok(CondV::Comparison(l, cmp, r)),
                    },
                },
            ),
            None => comparison_from(t, k + 1),
        }
    }
}

/// A primary: match-as-condition, comparison, or truthiness.
pub open spec fn primary(s: Seq<char>) -> Result<CondV, Fault> {
    let t = trim(s);
    if starts_with(t, match_prefix()) {
        match_condition(trim(t.skip(6)))
    } else {
        match comparison_from(t, 0) {
            Some(r) => r,
            None => match operand_of(t) {
                Ok(o) => Ok(CondV::Truthy(o)),
                Err(e) => Err(e),
            },
        }
    }
}

pub open spec fn unclosed_message(t: Seq<char>) -> Seq<char> {
    "unclosed '(' in condition: '"@ + t + "' \u{2014} missing matching ')'"@
}

/// `or_expr`.
pub open spec fn or_expr(s: Seq<char>) -> Result<CondV, Fault>
    decreases s.len(), 5int, 0int,
{
    match top_level_parts(s, op_or()) {
        Err(e) => Err(e),
        Ok(ps) => or_fold(s, ps, ps.len() as int),
    }
}

/// The first `k` parts of an `or_expr`, combined from the left.
pub open spec fn or_fold(s: Seq<char>, ps: Seq<Seq<char>>, k: int) -> Result<CondV, Fault>
    decreases s.len(), 4int, k,
{
    if k < 1 || k > ps.len() || ps[k - 1].len() > s.len() {
        Err(Fault::Syntax(Seq::empty()))
    } else if k == 1 {
        and_expr(ps[0])
    } else {
        match or_fold(s, ps, k - 1) {
            Err(e) => Err(e),
            Ok(l) => match and_expr(ps[k - 1]) {
                Err(e) => Err(e),
                Ok(r) => Ok(CondV::Or(Box::new(l), Box::new(r))),
            },
        }
    }
}

/// `and_expr`.
pub open spec fn and_expr(s: Seq<char>) -> Result<CondV, Fault>
    decreases s.len(), 3int, 0int,
{
    match top_level_parts(s, op_and()) {
        Err(e) => Err(e),
        Ok(ps) => and_fold(s, ps, ps.len() as int),
    }
}

/// The first `k` parts of an `and_expr`, combined from the left.
pub open spec fn and_fold(s: Seq<char>, ps: Seq<Seq<char>>, k: int) -> Result<CondV, Fault>
    decreases s.len(), 2int, k,
{
    if k < 1 || k > ps.len() || ps[k - 1].len() > s.len() {
        Err(Fault::Syntax(Seq::empty()))
    } else if k == 1 {
        unary_expr(ps[0])
    } else {
        match and_fold(s, ps, k - 1) {
            Err(e) => Err(e),
            Ok(l) => match unary_expr(ps[k - 1]) {
                Err(e) => Err(e),
                Ok(r) => Ok(CondV::And(Box::new(l), Box::new(r))),
            },
        }
    }
}

/// `unary_expr`.
pub open spec fn unary_expr(s: Seq<char>) -> Result<CondV, Fault>
    decreases s.len(), 1int, 0int,
{
    let t = trim(s);
    if t.len() > s.len() {
        Err(Fault::Syntax(Seq::empty()))
    } else if t.len() > 0 && t[0] == '!' {
        match unary_expr(t.skip(1)) {
            Ok(c) => Ok(CondV::Not(Box::new(c))),
            Err(e) => Err(e),
        }
    } else if t.len() > 0 && t[0] == '(' {
        match strip_balanced(t) {
            Some(inner) => if inner.len() < t.len() {
                or_expr(inner)
            } else {
                Err(Fault::Syntax(Seq::empty()))
            },
            None => Err(Fault::Syntax(unclosed_message(t))),
        }
    } else {
        primary(t)
    }
}

/// A whole condition.
pub open spec fn condition_of(c: Seq<char>) -> Result<CondV, Fault> {
    let t = trim(c);
    if t.len() == 0 {
        Err(Fault::Syntax("empty condition"@))
    } else {
        or_expr(t)
    }
}

// ---------------------------------------------------------------------------
// Executable operands
// ---------------------------------------------------------------------------
/// Splits `s` at each `c`.
fn split_char(s: &[char], c: char) -> (r: Vec<Vec<char>>)
    ensures
        views(r@) == split_char_from(s@, c, 0),
        r@.len() > 0,
{
    let n = s.len();
    let mut out: Vec<Vec<char>> = Vec::new();
    let mut i: usize = 0;
    loop
        invariant
            n == s@.len(),
            i <= n,
            split_char_from(s@, c, 0) == views(out@) + split_char_from(s@, c, i as int),
        decreases n - i,
    {
        proof {
            lemma_find_char_from(s@, c, i as int);
        }
        let ghost before = views(out@);
        match find_char_at(s, c, i) {
            Some(k) => {
                let piece = slice_of(s, i, k);
                out.push(piece);
                assert(views(out@) =~= before.push(piece@));
                assert(views(out@) + split_char_from(s@, c, k + 1) =~= before + split_char_from(
                    s@,
                    c,
                    i as int,
                ));
                i = k + 1;
            },
            None => {
                let piece = slice_of(s, i, n);
                out.push(piece);
                assert(views(out@) =~= before.push(piece@));
                assert(views(out@) =~= before + split_char_from(s@, c, i as int));
                return out;
            },
        }
    }
}

/// Strings holding the given character sequences.
fn strings_of(vs: &Vec<Vec<char>>) -> (r: Vec<String>)
    ensures
        r@.map_values(|s: String| s@) == views(vs@),
{
    let mut out: Vec<String> = Vec::new();
    let mut i: usize = 0;
    while i < vs.len()
        invariant
            i <= vs@.len(),
            out@.map_values(|s: String| s@) == views(vs@).take(i as int),
        decreases vs@.len() - i,
    {
        let ghost before = out@;
        let st = string_of(vs[i].as_slice());
        out.push(st);
        assert(out@.map_values(|s: String| s@) =~= before.map_values(|s: String| s@).push(st@));
        assert(views(vs@).take(i + 1) =~= views(vs@).take(i as int).push(vs@[i as int]@));
        i = i + 1;
    }
    assert(views(vs@).take(vs@.len() as int) =~= views(vs@));
    out
}

impl CompiledPath {
    /// The path `s`, split at its dots.
    pub fn compile(s: &[char]) -> (r: CompiledPath)
        ensures
            r.parts_view() == path_parts(s@),
    {
        let pieces = split_char(s, '.');
        let parts = strings_of(&pieces);
        assert(parts@.len() == parts@.map_values(|s: String| s@).len());
        CompiledPath::new(parts)
    }
}

/// The segments of an interpolated string.
fn pieces_exec(s: &[char]) -> (r: Vec<Segment>)
    ensures
        pieces_are(r@, pieces_from(s@, 0)),
{
    let n = s.len();
    let open = vec!['{', '{'];
    let close = vec!['}', '}'];
    assert(open@ =~= expr_open());
    assert(close@ =~= expr_close());
    let mut out: Vec<Segment> = Vec::new();
    let ghost mut done: Seq<PieceV> = Seq::empty();
    let mut i: usize = 0;
    loop
        invariant
            n == s@.len(),
            i <= n,
            open@ == expr_open(),
            close@ == expr_close(),
            pieces_from(s@, 0) == done + pieces_from(s@, i as int),
            pieces_are(out@, done),
        decreases n - i,
    {
        proof {
            lemma_find_from(s@, expr_open(), i as int);
        }
        let tail = match find_at(s, open.as_slice(), i) {
            None => true,
            Some(a) => {
                proof {
                    lemma_find_from(s@, expr_close(), a + 2);
                }
                match find_at(s, close.as_slice(), a + 2) {
                    None => true,
                    Some(b) => {
                        let text = slice_of(s, i, a);
                        let ex = slice_of(s, a + 2, b);
                        let path = CompiledPath::compile(trimmed(ex.as_slice()).as_slice());
                        let ghost p1 = PieceV::Text(text@);
                        let ghost p2 = PieceV::Var(path_parts(trim(ex@)));
                        out.push(Segment::Static(string_of(text.as_slice())));
                        out.push(Segment::Expr { expr: CompiledExpr::Path(path) });
                        proof {
                            let nd = done + seq![p1, p2];
                            assert(pieces_from(s@, i as int) == seq![p1, p2] + pieces_from(s@, b + 2));
                            assert(nd + pieces_from(s@, b + 2) =~= done + pieces_from(s@, i as int));
                            assert(pieces_are(out@, nd)) by {
                                assert forall|q: int| 0 <= q < out@.len() implies match #[trigger] nd[q] {
                                    PieceV::Text(t) => out@[q] matches Segment::Static(x) && x@ == t,
                                    PieceV::Var(parts) => out@[q] matches Segment::Expr { expr } && expr matches CompiledExpr::Path(p) && p.parts_view() == parts,
                                } by {
                                    if q < done.len() {
                                        assert(nd[q] == done[q]);
                                    }
                                }
                            }
                            done = nd;
                        }
                        i = b + 2;
                        false
                    },
                }
            },
        };
        if tail {
            let text = slice_of(s, i, n);
            let ghost p1 = PieceV::Text(text@);
            out.push(Segment::Static(string_of(text.as_slice())));
            proof {
                let nd = done.push(p1);
                assert(pieces_from(s@, i as int) == seq![p1]);
                assert(nd =~= done + pieces_from(s@, i as int));
                assert(pieces_are(out@, nd)) by {
                    assert forall|q: int| 0 <= q < out@.len() implies match #[trigger] nd[q] {
                        PieceV::Text(t) => out@[q] matches Segment::Static(x) && x@ == t,
                        PieceV::Var(parts) => out@[q] matches Segment::Expr { expr } && expr matches CompiledExpr::Path(p) && p.parts_view() == parts,
                    } by {
                        if q < done.len() {
                            assert(nd[q] == done[q]);
                        }
                    }
                }
            }
            return out;
        }
    }
}

impl ConditionOperand {
    /// The operand that trimmed text `t` denotes.
    pub fn compile(t: &[char]) -> (r: Result<ConditionOperand, TemplateError>)
        ensures
            match r {
                Ok(o) => operand_of(t@) matches Ok(v) && operand_is(o, v),
                Err(e) => operand_of(t@) == Err::<OperandV, Fault>(e@),
            },
    {
        let n = t.len();
        if n == 0 {
            return Err(TemplateError::Syntax(String::from_str("empty operand in condition")));
        }
        match crate::literals::strip_quotes(t) {
            Some(inner) => {
                let open = vec!['{', '{'];
                assert(open@ =~= expr_open());
                if has_infix(inner.as_slice(), open.as_slice()) {
                    let segs = pieces_exec(inner.as_slice());
                    return Ok(ConditionOperand::InterpolatedStr(segs));
                } else {
                    return Ok(ConditionOperand::Literal(Value::Str(string_of(inner.as_slice()))));
                }
            },
            None => {},
        }
        match crate::literals::literal_value(t) {
            Some(v) => {
                return Ok(ConditionOperand::Literal(v));
            },
            None => {},
        }
        match super::analysis::builtin_call_exec(t) {
            Some(open) => {
                proof {
                    lemma_find_char_from(t@, '(', 0);
                }
                let head = slice_of(t, 0, open);
                assert(head@ =~= t@.take(open as int));
                let f = trimmed(head.as_slice());
                let inner = slice_of(t, open + 1, n - 1);
                let arg = trimmed(inner.as_slice());
                let idx = vec!['i', 'd', 'x'];
                let len = vec!['l', 'e', 'n'];
                let kind = vec!['k', 'i', 'n', 'd'];
                let kinds = vec!['k', 'i', 'n', 'd', 's'];
                assert(idx@ =~= seq!['i', 'd', 'x']);
                assert(len@ =~= seq!['l', 'e', 'n']);
                assert(kind@ =~= seq!['k', 'i', 'n', 'd']);
                assert(kinds@ =~= seq!['k', 'i', 'n', 'd', 's']);
                if same_chars(f.as_slice(), idx.as_slice()) {
                    Ok(ConditionOperand::Idx(string_of(arg.as_slice())))
                } else if same_chars(f.as_slice(), len.as_slice()) {
                    Ok(ConditionOperand::Len(CompiledPath::compile(arg.as_slice())))
                } else if same_chars(f.as_slice(), kind.as_slice()) {
                    Ok(ConditionOperand::Kind(CompiledPath::compile(arg.as_slice())))
                } else if same_chars(f.as_slice(), kinds.as_slice()) {
                    Ok(ConditionOperand::Kinds(CompiledPath::compile(arg.as_slice())))
                } else {
                    Ok(ConditionOperand::Has(CompiledPath::compile(arg.as_slice())))
                }
            },
            None => Ok(ConditionOperand::Path { path: CompiledPath::compile(t) }),
        }
    }
}

// ---------------------------------------------------------------------------
// Executable grammar
// ---------------------------------------------------------------------------
/// A top-level split has at least one piece, none longer than the text.
proof fn lemma_top_split(s: Seq<char>, d: Seq<char>)
    requires
        d.len() > 0,
    ensures
        top_split(s, d, false).len() > 0,
        forall|k: int|
            0 <= k < trims(top_split(s, d, false)).len() ==> #[trigger] trims(
                top_split(s, d, false),
            )[k].len() <= s.len(),
{
    lemma_split_from(s, d, 0, false);
    lemma_scan(s, d, 0, 0, false);
    let ps = top_split(s, d, false);
    assert forall|k: int| 0 <= k < trims(ps).len() implies #[trigger] trims(ps)[k].len() <= s.len() by {
        lemma_trim_len(ps[k]);
    }
}

/// The pieces of `s` between top-level occurrences of `d`, trimmed.
pub fn split_top_level(s: &[char], d: &[char]) -> (r: Result<Vec<Vec<char>>, TemplateError>)
    requires
        d@.len() > 0,
    ensures
        match r {
            Ok(ps) => top_level_parts(s@, d@) == Ok::<Seq<Seq<char>>, Fault>(views(ps@)),
            Err(e) => top_level_parts(s@, d@) == Err::<Seq<Seq<char>>, Fault>(e@),
        },
{
    proof {
        lemma_top_split(s@, d@);
    }
    let raw = split_top(s, d, false);
    let mut ps: Vec<Vec<char>> = Vec::new();
    let mut k: usize = 0;
    while k < raw.len()
        invariant
            k <= raw@.len(),
            views(ps@) == trims(views(raw@)).take(k as int),
        decreases raw@.len() - k,
    {
        let ghost before = views(ps@);
        let t = trimmed(raw[k].as_slice());
        ps.push(t);
        assert(views(ps@) =~= before.push(t@));
        assert(trims(views(raw@)).take(k + 1) =~= trims(views(raw@)).take(k as int).push(
            trim(raw@[k as int]@),
        ));
        k = k + 1;
    }
    assert(trims(views(raw@)).take(raw@.len() as int) =~= trims(views(raw@)));
    let m = ps.len();
    if m > 0 && ps[m - 1].len() > 0 {
        Ok(ps)
    } else if m > 1 {
        let mut msg = String::from_str("dangling '");
        let ds = string_of(d);
        msg.append(ds.as_str());
        msg.append("' operator: missing right-hand expression");
        Err(TemplateError::Syntax(msg))
    } else {
        Err(TemplateError::Syntax(String::from_str("empty expression in condition")))
    }
}

/// The inside of `s` when its first `(` is closed by its last character.
pub fn strip_balanced_parens(s: &[char]) -> (r: Option<Vec<char>>)
    ensures
        match r {
            Some(x) => strip_balanced(s@) == Some(x@),
            None => strip_balanced(s@) is None,
        },
{
    let n = s.len();
    if n == 0 || s[0] != '(' {
        return None;
    }
    let mut depth: usize = 1;
    let mut i: usize = 1;
    while i < n
        invariant
            1 <= i <= n == s@.len(),
            s@[0] == '(',
            1 <= depth <= i,
            paren_close_from(s@, 1, 1) == paren_close_from(s@, i as int, depth as nat),
        decreases n - i,
    {
        if s[i] == '(' {
            depth = depth + 1;
        } else if s[i] == ')' {
            if depth <= 1 {
                assert(paren_close_from(s@, i as int, depth as nat) == Some(i as int));
                if i == n - 1 {
                    let r = slice_of(s, 1, i);
                    assert(strip_balanced(s@) == Some(s@.subrange(1, i as int)));
                    return Some(r);
                }
                return None;
            }
            depth = depth - 1;
        }
        i = i + 1;
    }
    None
}

/// The first top-level occurrence of `op` in `s`.
pub fn find_top_level_op(s: &[char], op: &[char]) -> (r: Option<usize>)
    ensures
        match r {
            Some(k) => top_find(s@, op@, false) == Some(k as int) && k + op@.len() <= s@.len(),
            None => top_find(s@, op@, false) is None,
        },
{
    proof {
        lemma_scan(s@, op@, 0, 0, false);
    }
    find_top(s, op, 0, false)
}

/// `match expr case A | B` (the text after `match`).
fn parse_match_as_condition(s: &[char]) -> (r: Result<Condition, TemplateError>)
    ensures
        match r {
            Ok(c) => match_condition(s@) matches Ok(v) && cond_is(c, v),
            Err(e) => match_condition(s@) == Err::<CondV, Fault>(e@),
        },
{
    let n = s.len();
    let kw = vec![' ', 'c', 'a', 's', 'e', ' '];
    assert(kw@ =~= case_keyword());
    proof {
        lemma_find_from(s@, case_keyword(), 0);
    }
    match find_at(s, kw.as_slice(), 0) {
        None => Err(
            TemplateError::Syntax(
                String::from_str("match-as-condition: expected 'case' keyword after expression"),
            ),
        ),
        Some(p) => {
            let head = slice_of(s, 0, p);
            assert(head@ =~= s@.take(p as int));
            let e = trimmed(head.as_slice());
            let tail = slice_of(s, p + 6, n);
            assert(tail@ =~= s@.skip(p + 6));
            let vs = trimmed(tail.as_slice());
            if e.len() == 0 {
                return Err(
                    TemplateError::Syntax(String::from_str("match-as-condition: empty expression")),
                );
            }
            if vs.len() == 0 {
                return Err(
                    TemplateError::Syntax(
                        String::from_str("match-as-condition: empty variant name after 'case'"),
                    ),
                );
            }
            let raw = split_char(vs.as_slice(), '|');
            let mut names: Vec<String> = Vec::new();
            let mut is_option = false;
            let some = vec!['S', 'o', 'm', 'e'];
            let none = vec!['N', 'o', 'n', 'e'];
            assert(some@ =~= seq!['S', 'o', 'm', 'e']);
            assert(none@ =~= seq!['N', 'o', 'n', 'e']);
            let ghost T = trims(views(raw@));
            let mut k: usize = 0;
            while k < raw.len()
                invariant
                    k <= raw@.len(),
                    T == trims(views(raw@)),
                    some@ == seq!['S', 'o', 'm', 'e'],
                    none@ == seq!['N', 'o', 'n', 'e'],
                    names@.map_values(|x: String| x@) == T.take(k as int),
                    is_option == (T.take(k as int).contains(seq!['S', 'o', 'm', 'e'])
                        || T.take(k as int).contains(seq!['N', 'o', 'n', 'e'])),
                decreases raw@.len() - k,
            {
                let t = trimmed(raw[k].as_slice());
                assert(T[k as int] == t@);
                let ghost before = names@;
                let ghost tk = T.take(k as int);
                let ghost tk1 = T.take(k + 1);
                assert(tk1 =~= tk.push(t@));
                if same_chars(t.as_slice(), some.as_slice()) || same_chars(t.as_slice(), none.as_slice()) {
                    is_option = true;
                    assert(tk1[k as int] == t@);
                }
                proof {
                    if tk1.contains(seq!['S', 'o', 'm', 'e']) {
                        let q = choose|q: int| 0 <= q < tk1.len() && tk1[q] == seq!['S', 'o', 'm', 'e'];
                        if q < k {
                            assert(tk[q] == tk1[q]);
                        }
                    }
                    if tk1.contains(seq!['N', 'o', 'n', 'e']) {
                        let q = choose|q: int| 0 <= q < tk1.len() && tk1[q] == seq!['N', 'o', 'n', 'e'];
                        if q < k {
                            assert(tk[q] == tk1[q]);
                        }
                    }
                    if tk.contains(seq!['S', 'o', 'm', 'e']) {
                        let q = choose|q: int| 0 <= q < tk.len() && tk[q] == seq!['S', 'o', 'm', 'e'];
                        assert(tk1[q] == tk[q]);
                    }
                    if tk.contains(seq!['N', 'o', 'n', 'e']) {
                        let q = choose|q: int| 0 <= q < tk.len() && tk[q] == seq!['N', 'o', 'n', 'e'];
                        assert(tk1[q] == tk[q]);
                    }
                }
                let st = string_of(t.as_slice());
                names.push(st);
                assert(names@.map_values(|x: String| x@) =~= before.map_values(|x: String| x@).push(st@));
                k = k + 1;
            }
            assert(T.take(raw@.len() as int) =~= T);
            let path = CompiledPath::compile(e.as_slice());
            Ok(Condition::MatchVariant { expr: path, variants: names, is_option })
        },
    }
}

/// The operator of `comparison_ops()[k]`.
fn comparison_op_at(k: usize) -> (r: ComparisonOp)
    requires
        k < 7,
    ensures
        r == comparison_ops()[k as int].1,
{
    if k == 0 {
        ComparisonOp::Eq
    } else if k == 1 {
        ComparisonOp::Ne
    } else if k == 2 {
        ComparisonOp::Le
    } else if k == 3 {
        ComparisonOp::Ge
    } else if k == 4 {
        ComparisonOp::Lt
    } else if k == 5 {
        ComparisonOp::Gt
    } else {
        ComparisonOp::In
    }
}

fn comparison_op_texts() -> (r: Vec<Vec<char>>)
    ensures
        r@.len() == 7,
        forall|k: int| 0 <= k < 7 ==> (#[trigger] r@[k])@ == comparison_ops()[k].0,
{
    let r: Vec<Vec<char>> = vec![
        vec!['=', '='],
        vec!['!', '='],
        vec!['<', '='],
        vec!['>', '='],
        vec!['<'],
        vec!['>'],
        vec![' ', 'i', 'n', ' '],
    ];
    assert(r@[0]@ =~= comparison_ops()[0].0);
    assert(r@[1]@ =~= comparison_ops()[1].0);
    assert(r@[2]@ =~= comparison_ops()[2].0);
    assert(r@[3]@ =~= comparison_ops()[3].0);
    assert(r@[4]@ =~= comparison_ops()[4].0);
    assert(r@[5]@ =~= comparison_ops()[5].0);
    assert(r@[6]@ =~= comparison_ops()[6].0);
    r
}

/// A primary: match-as-condition, comparison, or truthiness.
fn parse_primary(s: &[char]) -> (r: Result<Condition, TemplateError>)
    ensures
        match r {
            Ok(c) => primary(s@) matches Ok(v) && cond_is(c, v),
            Err(e) => primary(s@) == Err::<CondV, Fault>(e@),
        },
{
    let t = trimmed(s);
    let n = t.len();
    let mp = vec!['m', 'a', 't', 'c', 'h', ' '];
    assert(mp@ =~= match_prefix());
    if has_prefix(t.as_slice(), mp.as_slice()) {
        let rest = slice_of(t.as_slice(), 6, n);
        assert(rest@ =~= t@.skip(6));
        return parse_match_as_condition(trimmed(rest.as_slice()).as_slice());
    }
    let ops = comparison_op_texts();
    let mut k: usize = 0;
    while k < 7
        invariant
            k <= 7,
            n == t@.len(),
            t@ == trim(s@),
            !starts_with(t@, match_prefix()),
            ops@.len() == 7,
            forall|j: int| 0 <= j < 7 ==> (#[trigger] ops@[j])@ == comparison_ops()[j].0,
            comparison_from(t@, 0) == comparison_from(t@, k as int),
        decreases 7 - k,
    {
        assert(ops@[k as int]@ == comparison_ops()[k as int].0);
        match find_top_level_op(t.as_slice(), ops[k].as_slice()) {
            Some(idx) => {
                let l = ops[k].len();
                let head = slice_of(t.as_slice(), 0, idx);
                assert(head@ =~= t@.take(idx as int));
                let tail = slice_of(t.as_slice(), idx + l, n);
                assert(tail@ =~= t@.skip(idx + l));
                assert(top_find(t@, comparison_ops()[k as int].0, false) == Some(idx as int));
                let left = match ConditionOperand::compile(trimmed(head.as_slice()).as_slice()) {
                    Ok(o) => o,
                    Err(e) => {
                        assert(comparison_from(t@, k as int) == Some(Err::<CondV, Fault>(e@)));
                        return Err(e);
                    },
                };
                let right = match ConditionOperand::compile(trimmed(tail.as_slice()).as_slice()) {
                    Ok(o) => o,
                    Err(e) => {
                        assert(comparison_from(t@, k as int) == Some(Err::<CondV, Fault>(e@)));
                        return Err(e);
                    },
                };
                return Ok(Condition::Comparison { left, op: comparison_op_at(k), right });
            },
            None => {},
        }
        k = k + 1;
    }
    match ConditionOperand::compile(t.as_slice()) {
        Ok(o) => Ok(Condition::Truthy(o)),
        Err(e) => Err(e),
    }
}

/// An error in the first `k` parts of an `or_expr` is its error.
proof fn lemma_or_fold_err(s: Seq<char>, ps: Seq<Seq<char>>, k: int, m: int, e: Fault)
    requires
        1 <= k <= m <= ps.len(),
        forall|j: int| 0 <= j < ps.len() ==> #[trigger] ps[j].len() <= s.len(),
        or_fold(s, ps, k) == Err::<CondV, Fault>(e),
    ensures
        or_fold(s, ps, m) == Err::<CondV, Fault>(e),
    decreases m - k,
{
    if k < m {
        assert(ps[k].len() <= s.len());
        assert(or_fold(s, ps, k + 1) == Err::<CondV, Fault>(e));
        lemma_or_fold_err(s, ps, k + 1, m, e);
    }
}

/// An error in the first `k` parts of an `and_expr` is its error.
proof fn lemma_and_fold_err(s: Seq<char>, ps: Seq<Seq<char>>, k: int, m: int, e: Fault)
    requires
        1 <= k <= m <= ps.len(),
        forall|j: int| 0 <= j < ps.len() ==> #[trigger] ps[j].len() <= s.len(),
        and_fold(s, ps, k) == Err::<CondV, Fault>(e),
    ensures
        and_fold(s, ps, m) == Err::<CondV, Fault>(e),
    decreases m - k,
{
    if k < m {
        assert(ps[k].len() <= s.len());
        assert(and_fold(s, ps, k + 1) == Err::<CondV, Fault>(e));
        lemma_and_fold_err(s, ps, k + 1, m, e);
    }
}

/// `or_expr`: `and_expr ( "||" and_expr )*`, combined from the left.
fn parse_or_expr(s: &[char]) -> (r: Result<Condition, TemplateError>)
    ensures
        match r {
            Ok(c) => or_expr(s@) matches Ok(v) && cond_is(c, v),
            Err(e) => or_expr(s@) == Err::<CondV, Fault>(e@),
        },
    decreases s@.len(), 5int, 0int,
{
    let d = vec!['|', '|'];
    assert(d@ =~= op_or());
    proof {
        lemma_top_split(s@, op_or());
    }
    let ps = match split_top_level(s, d.as_slice()) {
        Ok(ps) => ps,
        Err(e) => {
            return Err(e);
        },
    };
    let ghost P = views(ps@);
    assert(P[0] == ps@[0]@);
    let mut result = match parse_and_expr(ps[0].as_slice()) {
        Ok(c) => c,
        Err(e) => {
            proof {
                assert(or_fold(s@, P, 1) == Err::<CondV, Fault>(e@));
                lemma_or_fold_err(s@, P, 1, P.len() as int, e@);
            }
            return Err(e);
        },
    };
    let mut k: usize = 1;
    while k < ps.len()
        invariant
            1 <= k <= ps@.len(),
            P == views(ps@),
            forall|j: int| 0 <= j < P.len() ==> #[trigger] P[j].len() <= s@.len(),
            or_expr(s@) == or_fold(s@, P, P.len() as int),
            or_fold(s@, P, k as int) matches Ok(v) && cond_is(result, v),
        decreases ps@.len() - k,
    {
        assert(P[k as int] == ps@[k as int]@);
        let ghost lv = or_fold(s@, P, k as int)->Ok_0;
        let right = match parse_and_expr(ps[k].as_slice()) {
            Ok(c) => c,
            Err(e) => {
                proof {
                    assert(or_fold(s@, P, k + 1) == Err::<CondV, Fault>(e@));
                    lemma_or_fold_err(s@, P, k + 1, P.len() as int, e@);
                }
                return Err(e);
            },
        };
        let ghost rv = and_expr(P[k as int])->Ok_0;
        assert(or_fold(s@, P, k + 1) == Ok::<CondV, Fault>(CondV::Or(Box::new(lv), Box::new(rv))));
        result = Condition::Or(Box::new(result), Box::new(right));
        k = k + 1;
    }
    result_ok(result)
}

/// `and_expr`: `unary_expr ( "&&" unary_expr )*`, combined from the left.
fn parse_and_expr(s: &[char]) -> (r: Result<Condition, TemplateError>)
    ensures
        match r {
            Ok(c) => and_expr(s@) matches Ok(v) && cond_is(c, v),
            Err(e) => and_expr(s@) == Err::<CondV, Fault>(e@),
        },
    decreases s@.len(), 3int, 0int,
{
    let d = vec!['&', '&'];
    assert(d@ =~= op_and());
    proof {
        lemma_top_split(s@, op_and());
    }
    let ps = match split_top_level(s, d.as_slice()) {
        Ok(ps) => ps,
        Err(e) => {
            return Err(e);
        },
    };
    let ghost P = views(ps@);
    assert(P[0] == ps@[0]@);
    let mut result = match parse_unary_expr(ps[0].as_slice()) {
        Ok(c) => c,
        Err(e) => {
            proof {
                assert(and_fold(s@, P, 1) == Err::<CondV, Fault>(e@));
                lemma_and_fold_err(s@, P, 1, P.len() as int, e@);
            }
            return Err(e);
        },
    };
    let mut k: usize = 1;
    while k < ps.len()
        invariant
            1 <= k <= ps@.len(),
            P == views(ps@),
            forall|j: int| 0 <= j < P.len() ==> #[trigger] P[j].len() <= s@.len(),
            and_expr(s@) == and_fold(s@, P, P.len() as int),
            and_fold(s@, P, k as int) matches Ok(v) && cond_is(result, v),
        decreases ps@.len() - k,
    {
        assert(P[k as int] == ps@[k as int]@);
        let ghost lv = and_fold(s@, P, k as int)->Ok_0;
        let right = match parse_unary_expr(ps[k].as_slice()) {
            Ok(c) => c,
            Err(e) => {
                proof {
                    assert(and_fold(s@, P, k + 1) == Err::<CondV, Fault>(e@));
                    lemma_and_fold_err(s@, P, k + 1, P.len() as int, e@);
                }
                return Err(e);
            },
        };
        let ghost rv = unary_expr(P[k as int])->Ok_0;
        assert(and_fold(s@, P, k + 1) == Ok::<CondV, Fault>(CondV::And(Box::new(lv), Box::new(rv))));
        result = Condition::And(Box::new(result), Box::new(right));
        k = k + 1;
    }
    result_ok(result)
}

fn result_ok(c: Condition) -> (r: Result<Condition, TemplateError>)
    ensures
        r == Ok::<Condition, TemplateError>(c),
{
    Ok(c)
}

/// `unary_expr`: `"!" unary_expr | "(" or_expr ")" | primary`.
fn parse_unary_expr(s: &[char]) -> (r: Result<Condition, TemplateError>)
    ensures
        match r {
            Ok(c) => unary_expr(s@) matches Ok(v) && cond_is(c, v),
            Err(e) => unary_expr(s@) == Err::<CondV, Fault>(e@),
        },
    decreases s@.len(), 1int, 0int,
{
    let t = trimmed(s);
    proof {
        lemma_trim_len(s@);
    }
    let n = t.len();
    if n > 0 && t[0] == '!' {
        let rest = slice_of(t.as_slice(), 1, n);
        assert(rest@ =~= t@.skip(1));
        return match parse_unary_expr(rest.as_slice()) {
            Ok(c) => Ok(Condition::Not(Box::new(c))),
            Err(e) => Err(e),
        };
    }
    if n > 0 && t[0] == '(' {
        return match strip_balanced_parens(t.as_slice()) {
            Some(inner) => parse_or_expr(inner.as_slice()),
            None => {
                let mut msg = String::from_str("unclosed '(' in condition: '");
                msg.append(string_of(t.as_slice()).as_str());
                msg.append("' \u{2014} missing matching ')'");
                Err(TemplateError::Syntax(msg))
            },
        };
    }
    parse_primary(t.as_slice())
}

/// Parses condition text into a [`Condition`]: `&&`, `||`, `!`,
/// parenthesised groups, comparisons, `x in y`, `match expr case A | B`,
/// and plain truthiness.
pub fn parse_condition(condition: &str) -> (r: Result<Condition, TemplateError>)
    ensures
        match r {
            Ok(c) => condition_of(condition@) matches Ok(v) && cond_is(c, v),
            Err(e) => condition_of(condition@) == Err::<CondV, Fault>(e@),
        },
{
    let cs = chars_of(condition);
    let t = trimmed(cs.as_slice());
    if t.len() == 0 {
        return Err(TemplateError::Syntax(String::from_str("empty condition")));
    }
    parse_or_expr(t.as_slice())
}

} // verus!
