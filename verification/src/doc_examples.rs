//! Template examples in markdown documents: finding fenced blocks that hold
//! a template, and preparing body-less snippets so that they compile.
use vstd::prelude::*;

use crate::text::{
    chars_of, contains, find_at, find_char_at, find_char_from, find_from, has_infix, has_prefix,
    lemma_find_char_from, lemma_find_from, matches_at, occurs_at, slice_of, starts_with,
    string_of, trim, trimmed,
};

verus! {

// ---------------------------------------------------------------------------
// Markers
// ---------------------------------------------------------------------------
pub open spec fn fence() -> Seq<char> {
    seq!['`', '`', '`']
}

/// A closing fence at the start of a line: `"\n```"`.
pub open spec fn fence_line() -> Seq<char> {
    seq!['\n', '`', '`', '`']
}

pub open spec fn dashes() -> Seq<char> {
    seq!['-', '-', '-']
}

/// A frontmatter delimiter at the start of a line: `"\n---"`.
pub open spec fn dashes_line() -> Seq<char> {
    seq!['\n', '-', '-', '-']
}

pub open spec fn frontmatter_placeholder() -> Seq<char> {
    "<frontmatter>"@
}

pub open spec fn body_placeholder() -> Seq<char> {
    "<body>"@
}

// ---------------------------------------------------------------------------
// Extraction
// ---------------------------------------------------------------------------
/// A template found in a document: its trimmed text and the line of its
/// opening fence (counting from 1).
pub struct BlockV {
    pub content: Seq<char>,
    pub line: int,
}

/// The number of line breaks in `s`.
pub open spec fn newlines(s: Seq<char>) -> nat
    decreases s.len(),
{
    if s.len() == 0 {
        0
    } else {
        newlines(s.drop_last()) + if s.last() == '\n' {
            1nat
        } else {
            0nat
        }
    }
}

/// A fenced block's text is a template example: it starts with `---`, a
/// later line starts with `---`, and it is not the generic format example.
pub open spec fn is_template_block(t: Seq<char>) -> bool {
    &&& starts_with(t, dashes())
    &&& contains(t.skip(3), dashes_line())
    &&& !contains(t, frontmatter_placeholder())
    &&& !contains(t, body_placeholder())
}

/// The template blocks of `s` from position `pos` on, where the current line
/// is `line`: a fence starts where ```` ``` ```` occurs, its content runs from
/// the next line up to the next line that starts with ```` ``` ````.
pub open spec fn blocks_from(s: Seq<char>, pos: int, line: int) -> Seq<BlockV>
    decreases s.len() - pos,
{
    if pos < 0 || pos >= s.len() {
        Seq::empty()
    } else if s[pos] == '\n' {
        blocks_from(s, pos + 1, line + 1)
    } else if occurs_at(s, pos, fence()) {
        let eol = match find_char_from(s, '\n', pos + 3) {
            Some(k) => k,
            None => s.len() as int,
        };
        let line1 = if eol < s.len() {
            line + 1
        } else {
            line
        };
        let cs = eol + 1;
        if cs >= s.len() || eol < pos {
            Seq::empty()
        } else {
            match find_from(s, fence_line(), cs) {
                None => blocks_from(s, cs, line1),
                Some(ce) => if cs <= ce && ce + 4 <= s.len() {
                    let t = trim(s.subrange(cs, ce));
                    let rest = blocks_from(
                        s,
                        ce + 4,
                        line1 + newlines(s.subrange(cs, ce + 4)),
                    );
                    if is_template_block(t) {
                        seq![BlockV { content: t, line }] + rest
                    } else {
                        rest
                    }
                } else {
                    Seq::empty()
                },
            }
        }
    } else {
        blocks_from(s, pos + 1, line)
    }
}

/// The template examples of a markdown document.
pub open spec fn template_blocks(s: Seq<char>) -> Seq<BlockV> {
    blocks_from(s, 0, 1)
}

/// A template example found in a document.
pub struct DocExample {
    /// The template text, trimmed.
    pub content: String,
    /// The line of the opening fence (counting from 1).
    pub line: usize,
    /// The document's name.
    pub file: String,
}

pub open spec fn example_view(e: DocExample) -> BlockV {
    BlockV { content: e.content@, line: e.line as int }
}

pub proof fn lemma_newlines_bound(s: Seq<char>)
    ensures
        newlines(s) <= s.len(),
    decreases s.len(),
{
    if s.len() > 0 {
        lemma_newlines_bound(s.drop_last());
    }
}

/// The number of line breaks in `s` between `a` and `b`.
fn count_newlines(s: &[char], a: usize, b: usize) -> (r: usize)
    requires
        a <= b <= s@.len(),
    ensures
        r == newlines(s@.subrange(a as int, b as int)),
{
    let mut k = a;
    let mut c: usize = 0;
    assert(s@.subrange(a as int, a as int) =~= Seq::<char>::empty());
    while k < b
        invariant
            a <= k <= b <= s@.len(),
            c == newlines(s@.subrange(a as int, k as int)),
            c <= k - a,
        decreases b - k,
    {
        assert(s@.subrange(a as int, k + 1).drop_last() =~= s@.subrange(a as int, k as int));
        if s[k] == '\n' {
            c = c + 1;
        }
        k = k + 1;
    }
    c
}

/// Whether the trimmed block text is a template example.
fn template_block_check(t: &[char]) -> (r: bool)
    ensures
        r == is_template_block(t@),
{
    let d = vec!['-', '-', '-'];
    let dl = vec!['\n', '-', '-', '-'];
    let fp = chars_of("<frontmatter>");
    let bp = chars_of("<body>");
    assert(d@ =~= dashes());
    assert(dl@ =~= dashes_line());
    if !has_prefix(t, d.as_slice()) {
        return false;
    }
    let n = t.len();
    let rest = slice_of(t, 3, n);
    assert(rest@ =~= t@.skip(3));
    has_infix(rest.as_slice(), dl.as_slice()) && !has_infix(t, fp.as_slice()) && !has_infix(
        t,
        bp.as_slice(),
    )
}

/// The fenced blocks of a markdown document that hold template examples
/// (text with `---` frontmatter), each with the line of its opening fence.
pub fn extract_template_blocks(source: &str, file: &str) -> (r: Vec<DocExample>)
    requires
        source@.len() < usize::MAX,
    ensures
        r@.map_values(|e: DocExample| example_view(e)) == template_blocks(source@),
        forall|i: int| 0 <= i < r@.len() ==> (#[trigger] r@[i]).file@ == file@,
{
    let s = chars_of(source);
    let n = s.len();
    let fence_v = vec!['`', '`', '`'];
    let fence_l = vec!['\n', '`', '`', '`'];
    assert(fence_v@ =~= fence());
    assert(fence_l@ =~= fence_line());
    let mut out: Vec<DocExample> = Vec::new();
    let ghost mut done: Seq<BlockV> = Seq::empty();
    let mut pos: usize = 0;
    let mut line: usize = 1;
    while pos < n
        invariant
            n == s@.len(),
            s@ == source@,
            n < usize::MAX,
            pos <= n,
            line <= pos + 1,
            fence_v@ == fence(),
            fence_l@ == fence_line(),
            template_blocks(s@) == done + blocks_from(s@, pos as int, line as int),
            out@.map_values(|e: DocExample| example_view(e)) == done,
            forall|i: int| 0 <= i < out@.len() ==> (#[trigger] out@[i]).file@ == file@,
        decreases n - pos,
    {
        if s[pos] == '\n' {
            line = line + 1;
            pos = pos + 1;
        } else if matches_at(s.as_slice(), pos, fence_v.as_slice()) {
            let fence_line_no = line;
            proof {
                lemma_find_char_from(s@, '\n', pos + 3);
            }
            let eol = match find_char_at(s.as_slice(), '\n', pos + 3) {
                Some(k) => k,
                None => n,
            };
            if eol < n {
                line = line + 1;
            }
            let cs = eol + 1;
            if cs >= n {
                assert(blocks_from(s@, pos as int, fence_line_no as int) == Seq::<BlockV>::empty());
                pos = n;
                assert(blocks_from(s@, pos as int, line as int) == Seq::<BlockV>::empty());
            } else {
                proof {
                    lemma_find_from(s@, fence_line(), cs as int);
                }
                match find_at(s.as_slice(), fence_l.as_slice(), cs) {
                    None => {
                        pos = cs;
                    },
                    Some(ce) => {
                        let block = slice_of(s.as_slice(), cs, ce);
                        let t = trimmed(block.as_slice());
                        let nl = count_newlines(s.as_slice(), cs, ce + 4);
                        proof {
                            lemma_newlines_bound(s@.subrange(cs as int, ce + 4));
                        }
                        let ghost rest_before = blocks_from(s@, pos as int, fence_line_no as int);
                        if template_block_check(t.as_slice()) {
                            let ghost bv = BlockV { content: t@, line: fence_line_no as int };
                            let ghost old_out = out@;
                            out.push(DocExample { content: string_of(t.as_slice()), line: fence_line_no, file: String::from_str(file) });
                            proof {
                                assert(out@.map_values(|e: DocExample| example_view(e)) =~= old_out.map_values(|e: DocExample| example_view(e)).push(bv));
                                assert(rest_before == seq![bv] + blocks_from(s@, ce + 4, (line + nl) as int));
                                assert(done.push(bv) + blocks_from(s@, ce + 4, (line + nl) as int) =~= done + rest_before);
                                done = done.push(bv);
                            }
                        }
                        line = line + nl;
                        pos = ce + 4;
                    },
                }
            }
        } else {
            pos = pos + 1;
        }
    }
    out
}

// ---------------------------------------------------------------------------
// Body-less snippets
// ---------------------------------------------------------------------------
/// The number of UTF-8 bytes of a character.
pub open spec fn utf8_len(c: char) -> int {
    if (c as u32) < 0x80 {
        1
    } else if (c as u32) < 0x800 {
        2
    } else if (c as u32) < 0x10000 {
        3
    } else {
        4
    }
}

/// The number of UTF-8 bytes of `s`.
pub open spec fn utf8_size(s: Seq<char>) -> int
    decreases s.len(),
{
    if s.len() == 0 {
        0
    } else {
        utf8_size(s.drop_last()) + utf8_len(s.last())
    }
}

/// The template has no body: its trimmed text starts with `---`, and after
/// the next line that starts with `---` (if any) only white space follows.
pub open spec fn empty_body(src: Seq<char>) -> bool {
    let t = trim(src);
    starts_with(t, dashes()) && match find_from(t, dashes_line(), 3) {
        Some(k) => trim(t.skip(k + 4)).len() == 0,
        None => true,
    }
}

/// Whether a template has an empty body (frontmatter only).
pub fn has_empty_body(template_src: &str) -> (r: bool)
    ensures
        r == empty_body(template_src@),
{
    let cs = chars_of(template_src);
    let t = trimmed(cs.as_slice());
    let n = t.len();
    let d = vec!['-', '-', '-'];
    let dl = vec!['\n', '-', '-', '-'];
    assert(d@ =~= dashes());
    assert(dl@ =~= dashes_line());
    if !has_prefix(t.as_slice(), d.as_slice()) {
        return false;
    }
    proof {
        lemma_find_from(t@, dashes_line(), 3);
    }
    match find_at(t.as_slice(), dl.as_slice(), 3) {
        Some(k) => {
            let body = slice_of(t.as_slice(), k + 4, n);
            assert(body@ =~= t@.skip(k + 4));
            trimmed(body.as_slice()).len() == 0
        },
        None => true,
    }
}

/// `template_src` with `allow_unused: true` (after a blank line) placed
/// before the line that closes its frontmatter; unchanged when no line after
/// the first three bytes starts with `---`.
pub open spec fn with_allow_unused(src: Seq<char>, k3: int) -> Seq<char> {
    let t = trim(src);
    match find_from(t, dashes_line(), k3) {
        Some(k) => t.take(k) + "\n\nallow_unused: true"@ + t.skip(k),
        None => src,
    }
}

/// Inserts `allow_unused: true` into the frontmatter of a body-less snippet.
/// The trimmed text must have at least three bytes ending at a character
/// boundary (the frontmatter is sought after them).
pub fn inject_allow_unused(template_src: &str) -> (r: String)
    requires
        exists|k3: int|
            0 <= k3 <= trim(template_src@).len() && utf8_size(trim(template_src@).take(k3)) == 3,
    ensures
        exists|k3: int|
            0 <= k3 <= trim(template_src@).len() && utf8_size(trim(template_src@).take(k3)) == 3
                && r@ == with_allow_unused(template_src@, k3),
{
    let cs = chars_of(template_src);
    let t = trimmed(cs.as_slice());
    let n = t.len();
    let ghost T = t@;
    let mut k3: usize = 0;
    let mut bytes: u32 = 0;
    while bytes < 3 && k3 < n
        invariant
            k3 <= n == T.len(),
            T == t@,
            bytes as int == utf8_size(T.take(k3 as int)),
            bytes <= 3 || k3 > 0,
            exists|j: int| k3 <= j <= T.len() && utf8_size(T.take(j)) == 3,
        decreases n - k3,
    {
        assert(T.take(k3 + 1).drop_last() =~= T.take(k3 as int));
        let c = t[k3];
        let w: u32 = if (c as u32) < 0x80 {
            1
        } else if (c as u32) < 0x800 {
            2
        } else if (c as u32) < 0x10000 {
            3
        } else {
            4
        };
        proof {
            let j = choose|j: int| k3 <= j <= T.len() && utf8_size(T.take(j)) == 3;
            lemma_utf8_size_mono(T, k3 + 1, j);
        }
        bytes = bytes + w;
        k3 = k3 + 1;
    }
    proof {
        let j = choose|j: int| k3 <= j <= T.len() && utf8_size(T.take(j)) == 3;
        if j > k3 {
            lemma_utf8_size_strict(T, k3 as int, j);
        }
        assert(utf8_size(T.take(k3 as int)) == 3);
    }
    let dl = vec!['\n', '-', '-', '-'];
    assert(dl@ =~= dashes_line());
    proof {
        lemma_find_from(t@, dashes_line(), k3 as int);
    }
    match find_at(t.as_slice(), dl.as_slice(), k3) {
        Some(k) => {
            let head = slice_of(t.as_slice(), 0, k);
            let tail = slice_of(t.as_slice(), k, n);
            assert(head@ =~= T.take(k as int));
            assert(tail@ =~= T.skip(k as int));
            let mut r = string_of(head.as_slice());
            r.append("\n\nallow_unused: true");
            r.append(string_of(tail.as_slice()).as_str());
            assert(r@ == with_allow_unused(template_src@, k3 as int));
            r
        },
        None => {
            let r = String::from_str(template_src);
            assert(r@ == with_allow_unused(template_src@, k3 as int));
            r
        },
    }
}

/// Byte sizes grow with the prefix.
proof fn lemma_utf8_size_mono(s: Seq<char>, a: int, b: int)
    requires
        0 <= a <= b <= s.len(),
    ensures
        utf8_size(s.take(a)) <= utf8_size(s.take(b)),
    decreases b - a,
{
    if a < b {
        assert(s.take(b).drop_last() =~= s.take(b - 1));
        lemma_utf8_size_mono(s, a, b - 1);
    }
}

/// Byte sizes grow strictly with the prefix.
proof fn lemma_utf8_size_strict(s: Seq<char>, a: int, b: int)
    requires
        0 <= a < b <= s.len(),
    ensures
        utf8_size(s.take(a)) < utf8_size(s.take(b)),
    decreases b - a,
{
    assert(s.take(b).drop_last() =~= s.take(b - 1));
    if a < b - 1 {
        lemma_utf8_size_strict(s, a, b - 1);
    }
}

/// The error comes from a template that needs provided env values or
/// imported templates, which a standalone compile cannot have.
pub open spec fn standalone_failure(msg: Seq<char>) -> bool {
    ||| contains(msg, "no value provided and no default"@)
    ||| contains(msg, "unknown type"@)
    ||| contains(msg, "unresolvable expression"@)
}

/// Whether the error message marks a failure that a standalone compile of
/// an example is expected to give.
pub fn is_expected_standalone_failure(err_msg: &str) -> (r: bool)
    ensures
        r == standalone_failure(err_msg@),
{
    let m = chars_of(err_msg);
    let a = chars_of("no value provided and no default");
    let b = chars_of("unknown type");
    let c = chars_of("unresolvable expression");
    has_infix(m.as_slice(), a.as_slice()) || has_infix(m.as_slice(), b.as_slice()) || has_infix(
        m.as_slice(),
        c.as_slice(),
    )
}

} // verus!
