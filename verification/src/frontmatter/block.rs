//! Locating the `---` frontmatter block and splitting it into logical lines.
use vstd::prelude::*;

use crate::error::{Fault, TemplateError};
use crate::text::{
    find_from, has_prefix, lemma_find_from, lines, matches_at, occurs_at, skip_ws, slice_of,
    split_lines, starts_with, string_of, trim, trimmed, ws_run_end, find_at, views,
};

verus! {

/// The frontmatter delimiter `---`.
pub open spec fn delim() -> Seq<char> {
    seq!['-', '-', '-']
}

/// A delimiter at the start of a line: `"\n---"`.
pub open spec fn delim_line() -> Seq<char> {
    seq!['\n', '-', '-', '-']
}

fn delim_exec() -> (r: Vec<char>)
    ensures
        r@ == delim(),
{
    vec!['-', '-', '-']
}

fn delim_line_exec() -> (r: Vec<char>)
    ensures
        r@ == delim_line(),
{
    vec!['\n', '-', '-', '-']
}

/// End of the run of `'\r'` and `'\n'` characters that starts at `i`.
pub open spec fn newline_run_end(s: Seq<char>, i: int) -> int
    decreases s.len() - i,
{
    if 0 <= i < s.len() && (s[i] == '\r' || s[i] == '\n') {
        newline_run_end(s, i + 1)
    } else {
        i
    }
}

/// The source, once leading white space is skipped, starts with `---`.
pub open spec fn has_opener(s: Seq<char>) -> bool {
    occurs_at(s, ws_run_end(s, 0), delim())
}

/// Whether the source, once leading white space is skipped, starts with `---`.
pub fn opens_with_delimiter(s: &[char]) -> (r: bool)
    ensures
        r == has_opener(s@),
{
    let w = skip_ws(s, 0);
    let d = delim_exec();
    matches_at(s, w, d.as_slice())
}

/// Where the frontmatter content starts: after the opening `---` and the
/// line breaks that follow it.
pub open spec fn block_start(s: Seq<char>) -> int {
    newline_run_end(s, ws_run_end(s, 0) + 3)
}

/// At `a` the closing delimiter follows the opener directly (an empty block).
pub open spec fn empty_block_at(s: Seq<char>, a: int) -> bool {
    occurs_at(s, a, delim()) && (a + 3 == s.len() || s[a + 3] == '\n' || s[a + 3] == '\r')
}

/// End of the frontmatter content and end of the closing delimiter.
pub open spec fn block_bounds(s: Seq<char>) -> Option<(int, int)> {
    let a = block_start(s);
    if empty_block_at(s, a) {
        Some((a, a + 3))
    } else {
        match find_from(s, delim_line(), a) {
            Some(e) => Some((e, e + 4)),
            None => None,
        }
    }
}

/// Where the body starts: one line break after the closing delimiter is skipped.
pub open spec fn body_offset(s: Seq<char>, c: int) -> int {
    if occurs_at(s, c, seq!['\n']) {
        c + 1
    } else if occurs_at(s, c, seq!['\r', '\n']) {
        c + 2
    } else {
        c
    }
}

/// The keys that open a frontmatter section.
pub open spec fn section_keys() -> Seq<Seq<char>> {
    seq![
        seq!['n', 'a', 'm', 'e', ':'],
        seq!['d', 'e', 's', 'c', 'r', 'i', 'p', 't', 'i', 'o', 'n', ':'],
        seq!['t', 'y', 'p', 'e', 's', ':'],
        seq!['i', 'm', 'p', 'o', 'r', 't', 's', ':'],
        seq!['p', 'a', 'r', 'a', 'm', 's', ':'],
        seq!['c', 'o', 'n', 's', 't', 's', ':'],
        seq!['e', 'n', 'v', ':'],
        seq!['a', 'l', 'l', 'o', 'w', '_', 'u', 'n', 'u', 's', 'e', 'd', ':'],
    ]
}

/// `line` starts with one of the section keys.
pub open spec fn starts_section(line: Seq<char>) -> bool {
    exists|k: int| 0 <= k < section_keys().len() && starts_with(line, #[trigger] section_keys()[k])
}

/// The first section line that directly follows a block list (no blank line
/// between them), scanning `ls` from `k` with the given state.
pub open spec fn blank_rule_from(
    ls: Seq<Seq<char>>,
    k: int,
    in_list: bool,
    had_blank: bool,
) -> Option<Seq<char>>
    decreases ls.len() - k,
{
    if k < 0 || k >= ls.len() {
        None
    } else {
        let t = trim(ls[k]);
        if t.len() == 0 {
            blank_rule_from(ls, k + 1, in_list, true)
        } else if starts_section(ls[k]) {
            if in_list && !had_blank {
                Some(t)
            } else {
                blank_rule_from(ls, k + 1, false, false)
            }
        } else if t[0] == '-' {
            blank_rule_from(ls, k + 1, true, false)
        } else {
            blank_rule_from(ls, k + 1, in_list, false)
        }
    }
}

/// The first section line of `ls` that needs a blank line before it.
pub open spec fn blank_rule_violation(ls: Seq<Seq<char>>) -> Option<Seq<char>> {
    blank_rule_from(ls, 0, false, true)
}

/// An indented line continues the logical line before it.
pub open spec fn is_continuation(line: Seq<char>) -> bool {
    line.len() > 0 && (line[0] == ' ' || line[0] == '\t')
}

/// Adds one physical line to the logical lines read so far: blank lines are
/// dropped, an indented line is appended (after a `'\n'`) to the last logical
/// line, any other line starts a new logical line.
pub open spec fn join_step(acc: Seq<Seq<char>>, line: Seq<char>) -> Seq<Seq<char>> {
    if trim(line).len() == 0 {
        acc
    } else if is_continuation(line) && acc.len() > 0 {
        acc.update(acc.len() - 1, acc.last() + seq!['\n'] + line)
    } else {
        acc.push(line)
    }
}

/// The logical lines of a sequence of physical lines.
pub open spec fn join_lines(ls: Seq<Seq<char>>) -> Seq<Seq<char>>
    decreases ls.len(),
{
    if ls.len() == 0 {
        Seq::empty()
    } else {
        join_step(join_lines(ls.drop_last()), ls.last())
    }
}

/// The logical lines of a frontmatter block.
pub open spec fn logical_lines(block: Seq<char>) -> Seq<Seq<char>> {
    join_lines(lines(block))
}

/// The logical lines of the frontmatter of `s` and the position where the
/// body starts, or the error that the source earns.
pub open spec fn extract_block(s: Seq<char>, allow_missing: bool) -> Result<
    (Seq<Seq<char>>, int),
    Fault,
> {
    if !has_opener(s) {
        if allow_missing {
            Ok((Seq::empty(), 0))
        } else {
            Err(Fault::MissingFrontmatter)
        }
    } else {
        match block_bounds(s) {
            None => Err(Fault::UnclosedFrontmatter),
            Some((e, c)) => {
                let block = s.subrange(block_start(s), e);
                match blank_rule_violation(lines(block)) {
                    Some(t) => Err(Fault::BlankLineRequired(t)),
                    None => Ok((logical_lines(block), body_offset(s, c))),
                }
            },
        }
    }
}

pub proof fn lemma_newline_run_end(s: Seq<char>, i: int)
    requires
        0 <= i,
    ensures
        i <= newline_run_end(s, i),
        i <= s.len() ==> newline_run_end(s, i) <= s.len(),
    decreases s.len() - i,
{
    if 0 <= i < s.len() && (s[i] == '\r' || s[i] == '\n') {
        lemma_newline_run_end(s, i + 1);
    }
}

fn skip_newlines(s: &[char], i: usize) -> (r: usize)
    requires
        i <= s@.len(),
    ensures
        r == newline_run_end(s@, i as int),
        i <= r <= s@.len(),
{
    let mut k = i;
    while k < s.len() && (s[k] == '\r' || s[k] == '\n')
        invariant
            i <= k <= s@.len(),
            newline_run_end(s@, i as int) == newline_run_end(s@, k as int),
        decreases s@.len() - k,
    {
        k = k + 1;
    }
    k
}

/// Whether a line opens a frontmatter section.
fn line_starts_section(line: &[char]) -> (r: bool)
    ensures
        r == starts_section(line@),
{
    let keys: Vec<Vec<char>> = vec![
        vec!['n', 'a', 'm', 'e', ':'],
        vec!['d', 'e', 's', 'c', 'r', 'i', 'p', 't', 'i', 'o', 'n', ':'],
        vec!['t', 'y', 'p', 'e', 's', ':'],
        vec!['i', 'm', 'p', 'o', 'r', 't', 's', ':'],
        vec!['p', 'a', 'r', 'a', 'm', 's', ':'],
        vec!['c', 'o', 'n', 's', 't', 's', ':'],
        vec!['e', 'n', 'v', ':'],
        vec!['a', 'l', 'l', 'o', 'w', '_', 'u', 'n', 'u', 's', 'e', 'd', ':'],
    ];
    assert(views(keys@) =~= section_keys());
    let mut k: usize = 0;
    while k < keys.len()
        invariant
            k <= keys@.len(),
            views(keys@) == section_keys(),
            forall|m: int| 0 <= m < k ==> !starts_with(line@, #[trigger] section_keys()[m]),
        decreases keys@.len() - k,
    {
        assert(keys@[k as int]@ == section_keys()[k as int]);
        if has_prefix(line, keys[k].as_slice()) {
            return true;
        }
        k = k + 1;
    }
    false
}

/// Checks that every section line after a block list has a blank line
/// before it; returns the first offending trimmed line.
fn check_blank_rule(ls: &Vec<Vec<char>>) -> (r: Option<Vec<char>>)
    ensures
        r matches Some(t) ==> blank_rule_violation(views(ls@)) == Some(t@),
        r is None ==> blank_rule_violation(views(ls@)) is None,
{
    let ghost dv = views(ls@);
    let mut in_list = false;
    let mut had_blank = true;
    let mut k: usize = 0;
    while k < ls.len()
        invariant
            k <= ls@.len(),
            dv == views(ls@),
            dv.len() == ls@.len(),
            blank_rule_violation(dv) == blank_rule_from(dv, k as int, in_list, had_blank),
        decreases ls@.len() - k,
    {
        let line = &ls[k];
        assert(dv[k as int] == line@);
        let t = trimmed(line.as_slice());
        if t.len() == 0 {
            had_blank = true;
        } else if line_starts_section(line.as_slice()) {
            if in_list && !had_blank {
                return Some(t);
            }
            in_list = false;
            had_blank = false;
        } else if t[0] == '-' {
            in_list = true;
            had_blank = false;
        } else {
            had_blank = false;
        }
        k = k + 1;
    }
    None
}

/// Joins indented continuation lines onto the logical line before them and
/// drops blank lines.
pub fn join_logical_lines(ls: &Vec<Vec<char>>) -> (r: Vec<Vec<char>>)
    ensures
        views(r@) == join_lines(views(ls@)),
{
    let ghost dv = views(ls@);
    let mut out: Vec<Vec<char>> = Vec::new();
    let mut k: usize = 0;
    while k < ls.len()
        invariant
            k <= ls@.len(),
            dv == views(ls@),
            dv.len() == ls@.len(),
            views(out@) == join_lines(dv.take(k as int)),
        decreases ls@.len() - k,
    {
        let line = &ls[k];
        assert(dv.take(k + 1).drop_last() =~= dv.take(k as int));
        assert(dv.take(k + 1).last() == line@);
        let t = trimmed(line.as_slice());
        if t.len() == 0 {
        } else if line.len() > 0 && (line[0] == ' ' || line[0] == '\t') && out.len() > 0 {
            let last = out.len() - 1;
            let ghost before = views(out@);
            assert(before[last as int] == out@[last as int]@);
            let mut joined = out[last].clone();
            joined.push('\n');
            let mut m: usize = 0;
            while m < line.len()
                invariant
                    m <= line@.len(),
                    last < out@.len(),
                    before == views(out@),
                    joined@ == before[last as int] + seq!['\n'] + line@.take(m as int),
                decreases line@.len() - m,
            {
                joined.push(line[m]);
                assert(line@.take(m + 1) =~= line@.take(m as int).push(line@[m as int]));
                m = m + 1;
            }
            assert(line@.take(line@.len() as int) =~= line@);
            out.set(last, joined);
            assert(views(out@) =~= before.update(last as int, before.last() + seq!['\n']
                + line@));
        } else {
            let ghost before = views(out@);
            out.push(line.clone());
            assert(views(out@) =~= before.push(line@));
        }
        k = k + 1;
    }
    assert(dv.take(ls@.len() as int) =~= dv);
    out
}

/// Finds the frontmatter block of `s`: returns its logical lines and the
/// position where the body starts.
pub fn extract_yaml_logical_lines(s: &[char], allow_missing: bool) -> (r: Result<
    (Vec<Vec<char>>, usize),
    TemplateError,
>)
    ensures
        match r {
            Ok((ls, b)) => extract_block(s@, allow_missing) == Ok::<_, Fault>(
                (views(ls@), b as int),
            ) && b <= s@.len(),
            Err(e) => extract_block(s@, allow_missing) == Err::<(Seq<Seq<char>>, int), _>(e@),
        },
{
    let n = s.len();
    let w = skip_ws(s, 0);
    let d = delim_exec();
    if !matches_at(s, w, d.as_slice()) {
        if allow_missing {
            let empty: Vec<Vec<char>> = Vec::new();
            assert(views(empty@) =~= Seq::<Seq<char>>::empty());
            return Ok((empty, 0));
        }
        return Err(TemplateError::MissingFrontmatter);
    }
    let a = skip_newlines(s, w + 3);
    let (e, c): (usize, usize) = if matches_at(s, a, d.as_slice()) && (a + 3 == s.len() || s[a
        + 3] == '\n' || s[a + 3] == '\r') {
        (a, a + 3)
    } else {
        let dl = delim_line_exec();
        proof {
            lemma_find_from(s@, delim_line(), a as int);
        }
        match find_at(s, dl.as_slice(), a) {
            Some(e) => (e, e + 4),
            None => {
                return Err(TemplateError::UnclosedFrontmatter);
            },
        }
    };
    assert(block_start(s@) == a);
    assert(block_bounds(s@) == Some((e as int, c as int)));
    let block = slice_of(s, a, e);
    let physical = split_lines(block.as_slice());
    assert(views(physical@) =~= lines(block@));
    match check_blank_rule(&physical) {
        Some(t) => {
            return Err(TemplateError::BlankLineRequired(string_of(t.as_slice())));
        },
        None => {},
    }
    let logical = join_logical_lines(&physical);
    let nl = vec!['\n'];
    let crlf = vec!['\r', '\n'];
    assert(nl@ =~= seq!['\n']);
    assert(crlf@ =~= seq!['\r', '\n']);
    let b = if matches_at(s, c, nl.as_slice()) {
        c + 1
    } else if matches_at(s, c, crlf.as_slice()) {
        c + 2
    } else {
        c
    };
    assert(b == body_offset(s@, c as int));
    Ok((logical, b))
}

/// The logical lines of a frontmatter block: indented lines continue the
/// line before them, blank lines are dropped.
pub fn join_continuation_lines(block: &str) -> (r: Vec<String>)
    ensures
        super::imported::string_views(r@) == logical_lines(block@),
{
    let cs = crate::text::chars_of(block);
    let physical = split_lines(cs.as_slice());
    let logical = join_logical_lines(&physical);
    let mut out: Vec<String> = Vec::new();
    let mut k: usize = 0;
    while k < logical.len()
        invariant
            k <= logical@.len(),
            super::imported::string_views(out@) == views(logical@).take(k as int),
        decreases logical@.len() - k,
    {
        let ghost before = out@;
        let line = string_of(logical[k].as_slice());
        out.push(line);
        assert(super::imported::string_views(out@) =~= super::imported::string_views(before).push(line@));
        assert(views(logical@).take(k + 1) =~= views(logical@).take(k as int).push(logical@[k as int]@));
        k = k + 1;
    }
    assert(views(logical@).take(logical@.len() as int) =~= views(logical@));
    out
}

} // verus!
