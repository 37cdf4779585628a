//! Documentation comments for hover text.
//!
//! A raw comment in any of the usual Apple / Doxygen styles (`/*! … */`,
//! `/** … */`, `///`, `//!`) is reduced to its prose, one line per
//! non-empty comment line, with `@param` / `@return` tags turned into
//! Markdown.  A comment attached to a declaration is found by scanning the
//! lines above it.

use vstd::prelude::*;

use crate::text::{
    append_str, append_string, chars_of, first_of, lines, line_spans, range_ends_with,
    range_starts_with, starts_with, ends_with, string_of, trim, trim_range, to_owned_string,
};

verus! {

// ---------------------------------------------------------------------------
// Tags
// ---------------------------------------------------------------------------

/// The text after a `@param ` or `\param ` tag.
pub open spec fn param_rest(line: Seq<char>) -> Option<Seq<char>> {
    if starts_with(line, "@param "@) || starts_with(line, "\\param "@) {
        Some(line.skip(7))
    } else {
        None
    }
}

/// The text after a `@return ` or `\return ` tag.
pub open spec fn return_rest(line: Seq<char>) -> Option<Seq<char>> {
    if starts_with(line, "@return "@) || starts_with(line, "\\return "@) {
        Some(line.skip(8))
    } else {
        None
    }
}

/// A documentation line with its tag turned into Markdown: a parameter
/// as ``**Parameter** `name`: description``, the returned value as
/// `**Returns**: description`; `@abstract` and `@discussion` dropped.
pub open spec fn doc_tag(line: Seq<char>) -> Seq<char> {
    match param_rest(line) {
        Some(rest) => {
            let k = first_of(rest, ' ');
            let name = rest.take(k as int);
            let desc = if k < rest.len() {
                trim(rest.skip(k + 1 as int))
            } else {
                Seq::empty()
            };
            if desc.len() == 0 {
                "**Parameter** `"@ + name + "`"@
            } else {
                "**Parameter** `"@ + name + "`: "@ + desc
            }
        },
        None => match return_rest(line) {
            Some(rest) => "**Returns**: "@ + trim(rest),
            None => if starts_with(line, "@abstract "@) {
                trim(line.skip(10))
            } else if starts_with(line, "@discussion "@) {
                trim(line.skip(12))
            } else {
                line
            },
        },
    }
}

/// Convert `@param foo desc` / `@return desc` to Markdown-friendly text.
pub fn convert_doc_tag(line: &str) -> (r: String)
    ensures
        r@ == doc_tag(line@),
{
    let v = chars_of(line);
    let n = v.len();
    let at_param = chars_of("@param ");
    let bs_param = chars_of("\\param ");
    let at_return = chars_of("@return ");
    let bs_return = chars_of("\\return ");
    let at_abstract = chars_of("@abstract ");
    let at_discussion = chars_of("@discussion ");
    assert(v@.subrange(0, n as int) =~= v@);
    if range_starts_with(&v, 0, n, &at_param) || range_starts_with(&v, 0, n, &bs_param) {
        proof {
            reveal_strlit("@param ");
            reveal_strlit("\\param ");
        }
        let ghost rest = v@.skip(7);
        let mut k: usize = 7;
        while k < n && v[k] != ' '
            invariant
                7 <= k <= n,
                n == v.len(),
                rest == v@.skip(7),
                forall|j: int| 7 <= j < k ==> v@[j] != ' ',
            decreases n - k,
        {
            k = k + 1;
        }
        proof {
            crate::text::lemma_first_of(rest, ' ', k - 7);
        }
        let mut out = to_owned_string("**Parameter** `");
        let name = string_of(&v, 7, k);
        assert(name@ =~= rest.take(k - 7));
        append_string(&mut out, &name);
        let (da, db) = if k < n {
            trim_range(&v, k + 1, n)
        } else {
            (n, n)
        };
        if k < n {
            assert(v@.subrange(k + 1, n as int) =~= rest.skip(k - 7 + 1));
        }
        if db == da {
            append_str(&mut out, "`");
        } else {
            append_str(&mut out, "`: ");
            let desc = string_of(&v, da, db);
            append_string(&mut out, &desc);
        }
        return out;
    }
    if range_starts_with(&v, 0, n, &at_return) || range_starts_with(&v, 0, n, &bs_return) {
        proof {
            reveal_strlit("@return ");
            reveal_strlit("\\return ");
        }
        let (a, b) = trim_range(&v, 8, n);
        assert(v@.subrange(8, n as int) =~= v@.skip(8));
        let mut out = to_owned_string("**Returns**: ");
        let desc = string_of(&v, a, b);
        append_string(&mut out, &desc);
        return out;
    }
    if range_starts_with(&v, 0, n, &at_abstract) {
        proof {
            reveal_strlit("@abstract ");
        }
        let (a, b) = trim_range(&v, 10, n);
        assert(v@.subrange(10, n as int) =~= v@.skip(10));
        return string_of(&v, a, b);
    }
    if range_starts_with(&v, 0, n, &at_discussion) {
        proof {
            reveal_strlit("@discussion ");
        }
        let (a, b) = trim_range(&v, 12, n);
        assert(v@.subrange(12, n as int) =~= v@.skip(12));
        return string_of(&v, a, b);
    }
    to_owned_string(line)
}

// ---------------------------------------------------------------------------
// Raw comments
// ---------------------------------------------------------------------------

/// A trimmed comment line without its opening `/*!`, `/**`, `//!` or
/// `///`.
pub open spec fn strip_opener(t: Seq<char>) -> Seq<char> {
    if starts_with(t, "/*!"@) || starts_with(t, "/**"@) || starts_with(t, "//!"@) || starts_with(t, "///"@) {
        t.skip(3)
    } else {
        t
    }
}

/// `t` without every trailing `*/`.
pub open spec fn strip_closers(t: Seq<char>) -> Seq<char>
    decreases t.len(),
{
    if t.len() >= 2 && ends_with(t, "*/"@) {
        strip_closers(t.take(t.len() - 2))
    } else {
        t
    }
}

/// A block-comment body line without its leading `* ` (or `*`).
pub open spec fn strip_star(t: Seq<char>) -> Seq<char> {
    if starts_with(t, "* "@) {
        t.skip(2)
    } else if starts_with(t, "*"@) {
        t.skip(1)
    } else {
        t
    }
}

/// The prose of one comment line.
pub open spec fn clean_line(l: Seq<char>) -> Seq<char> {
    doc_tag(trim(strip_star(trim(strip_closers(strip_opener(trim(l)))))))
}

/// The non-empty cleaned lines of `ls`, in order.
pub open spec fn cleaned_lines(ls: Seq<Seq<char>>) -> Seq<Seq<char>>
    decreases ls.len(),
{
    if ls.len() == 0 {
        seq![]
    } else {
        let c = clean_line(ls.last());
        if c.len() == 0 {
            cleaned_lines(ls.drop_last())
        } else {
            cleaned_lines(ls.drop_last()).push(c)
        }
    }
}

/// The lines `ls` joined with `"\n"` between them.
pub open spec fn join_nl(ls: Seq<Seq<char>>) -> Seq<char>
    decreases ls.len(),
{
    if ls.len() == 0 {
        Seq::empty()
    } else if ls.len() == 1 {
        ls[0]
    } else {
        join_nl(ls.drop_last()) + "\n"@ + ls.last()
    }
}

/// The prose of a raw comment: its cleaned non-empty lines, joined with
/// `"\n"`.
pub open spec fn clean_comment(raw: Seq<char>) -> Seq<char> {
    join_nl(cleaned_lines(lines(raw)))
}

/// The prose of `v[a..b]`, one line of a comment.
fn clean_line_exec(v: &Vec<char>, a: usize, b: usize) -> (r: String)
    requires
        a <= b <= v.len(),
    ensures
        r@ == clean_line(v@.subrange(a as int, b as int)),
{
    let ghost l = v@.subrange(a as int, b as int);
    let (a1, b1) = trim_range(v, a, b);
    let ghost t1 = v@.subrange(a1 as int, b1 as int);
    let o1 = chars_of("/*!");
    let o2 = chars_of("/**");
    let o3 = chars_of("//!");
    let o4 = chars_of("///");
    let a2 = if range_starts_with(v, a1, b1, &o1) || range_starts_with(v, a1, b1, &o2)
        || range_starts_with(v, a1, b1, &o3) || range_starts_with(v, a1, b1, &o4) {
        proof {
            reveal_strlit("/*!");
            reveal_strlit("/**");
            reveal_strlit("//!");
            reveal_strlit("///");
        }
        assert(t1.skip(3) =~= v@.subrange(a1 + 3, b1 as int));
        a1 + 3
    } else {
        a1
    };
    assert(v@.subrange(a2 as int, b1 as int) == strip_opener(t1));
    let closer = chars_of("*/");
    proof {
        reveal_strlit("*/");
    }
    let mut b2 = b1;
    while b2 - a2 >= 2 && range_ends_with(v, a2, b2, &closer)
        invariant
            a2 <= b2 <= b1 <= v.len(),
            closer@ == "*/"@,
            strip_closers(v@.subrange(a2 as int, b2 as int)) == strip_closers(strip_opener(t1)),
        decreases b2,
    {
        assert(v@.subrange(a2 as int, b2 as int).take(b2 - a2 - 2) =~= v@.subrange(a2 as int, b2 - 2));
        b2 = b2 - 2;
    }
    let (a3, b3) = trim_range(v, a2, b2);
    let ghost t3 = v@.subrange(a3 as int, b3 as int);
    let s1 = chars_of("* ");
    let s2 = chars_of("*");
    let a4 = if range_starts_with(v, a3, b3, &s1) {
        proof {
            reveal_strlit("* ");
        }
        assert(t3.skip(2) =~= v@.subrange(a3 + 2, b3 as int));
        a3 + 2
    } else if range_starts_with(v, a3, b3, &s2) {
        proof {
            reveal_strlit("*");
        }
        assert(t3.skip(1) =~= v@.subrange(a3 + 1, b3 as int));
        a3 + 1
    } else {
        a3
    };
    assert(v@.subrange(a4 as int, b3 as int) == strip_star(t3));
    let (a5, b5) = trim_range(v, a4, b3);
    let t = string_of(v, a5, b5);
    convert_doc_tag(t.as_str())
}

/// Strip comment delimiters from a raw comment and return clean prose
/// suitable for Markdown hover rendering.
pub fn clean_raw_comment(raw: &str) -> (r: String)
    ensures
        r@ == clean_comment(raw@),
{
    let v = chars_of(raw);
    let spans = line_spans(&v);
    let ghost ls = lines(v@);
    let mut out = String::new();
    let ghost mut kept: Seq<Seq<char>> = seq![];
    let mut any = false;
    let mut k: usize = 0;
    assert(ls.take(0) =~= Seq::<Seq<char>>::empty());
    while k < spans.len()
        invariant
            k <= spans.len(),
            spans.len() == ls.len(),
            ls == lines(v@),
            forall|j: int| #![trigger spans@[j]] 0 <= j < spans.len() ==> spans@[j].0 <= spans@[j].1 <= v.len(),
            forall|j: int|
                #![trigger spans@[j]]
                0 <= j < spans.len() ==> v@.subrange(spans@[j].0 as int, spans@[j].1 as int) == ls[j],
            kept == cleaned_lines(ls.take(k as int)),
            out@ == join_nl(kept),
            any == (kept.len() > 0),
        decreases spans.len() - k,
    {
        let (a, b) = spans[k];
        let c = clean_line_exec(&v, a, b);
        assert(ls.take(k + 1).drop_last() =~= ls.take(k as int));
        assert(ls.take(k + 1).last() == ls[k as int]);
        if !c.as_str().is_empty() {
            proof {
                reveal_strlit("\n");
            }
            if any {
                append_str(&mut out, "\n");
            }
            append_string(&mut out, &c);
            proof {
                let nk = kept.push(c@);
                assert(nk.drop_last() =~= kept);
                if kept.len() == 0 {
                    assert(join_nl(nk) == c@);
                    assert(out@ =~= c@);
                }
                kept = nk;
            }
            any = true;
        }
        k = k + 1;
    }
    assert(ls.take(spans.len() as int) =~= ls);
    out
}

// ---------------------------------------------------------------------------
// Comments above a declaration
// ---------------------------------------------------------------------------

/// Walking back from line `s` to line 1, the first line whose trimmed
/// text opens a block comment; line 0 when there is none.
pub open spec fn block_comment_start(ls: Seq<Seq<char>>, s: int) -> int
    decreases s,
{
    if s <= 0 {
        0
    } else if starts_with(trim(ls[s]), "/*"@) {
        s
    } else {
        block_comment_start(ls, s - 1)
    }
}

pub open spec fn is_doc_line_comment(t: Seq<char>) -> bool {
    starts_with(t, "///"@) || starts_with(t, "//!"@)
}

/// Walking back from line `s`, the first line of the run of `///` /
/// `//!` lines that ends at `s`.
pub open spec fn line_comment_start(ls: Seq<Seq<char>>, s: int) -> int
    decreases s,
{
    if s > 0 && is_doc_line_comment(trim(ls[s - 1])) {
        line_comment_start(ls, s - 1)
    } else {
        s
    }
}

/// The prose of lines `a..b` of `ls`, when there is any.
pub open spec fn block_prose(ls: Seq<Seq<char>>, a: int, b: int) -> Option<Seq<char>> {
    let c = clean_comment(join_nl(ls.subrange(a, b)));
    if c.len() > 0 {
        Some(c)
    } else {
        None
    }
}

/// The documentation comment right above line `d`: none when `d` is the
/// first line or the line above is blank; a block comment ending on the
/// line above; else a run of `///` / `//!` lines ending there.
pub open spec fn preceding_comment(ls: Seq<Seq<char>>, d: int) -> Option<Seq<char>> {
    if d == 0 || trim(ls[d - 1]).len() == 0 {
        None
    } else {
        let last = trim(ls[d - 1]);
        let block = if ends_with(last, "*/"@) {
            block_prose(ls, block_comment_start(ls, d - 1), d)
        } else {
            None
        };
        if block is Some {
            block
        } else if is_doc_line_comment(last) {
            block_prose(ls, line_comment_start(ls, d - 1), d)
        } else {
            None
        }
    }
}

proof fn lemma_block_comment_start(ls: Seq<Seq<char>>, s: int)
    requires
        0 <= s < ls.len(),
    ensures
        0 <= block_comment_start(ls, s) <= s,
    decreases s,
{
    if s > 0 && !starts_with(trim(ls[s]), "/*"@) {
        lemma_block_comment_start(ls, s - 1);
    }
}

proof fn lemma_line_comment_start(ls: Seq<Seq<char>>, s: int)
    requires
        0 <= s < ls.len(),
    ensures
        0 <= line_comment_start(ls, s) <= s,
    decreases s,
{
    if s > 0 && is_doc_line_comment(trim(ls[s - 1])) {
        lemma_line_comment_start(ls, s - 1);
    }
}

/// Lines `a..b` joined with `"\n"`.
fn join_lines(ls: &[&str], a: usize, b: usize) -> (r: String)
    requires
        a <= b <= ls@.len(),
    ensures
        r@ == join_nl(ls@.map_values(|s: &str| s@).subrange(a as int, b as int)),
{
    let ghost vs = ls@.map_values(|s: &str| s@);
    let mut out = String::new();
    let mut k = a;
    proof {
        reveal_strlit("\n");
    }
    assert(vs.subrange(a as int, a as int) =~= Seq::<Seq<char>>::empty());
    while k < b
        invariant
            a <= k <= b <= ls@.len(),
            vs == ls@.map_values(|s: &str| s@),
            out@ == join_nl(vs.subrange(a as int, k as int)),
        decreases b - k,
    {
        assert(vs[k as int] == ls@[k as int]@);
        let ghost prev = vs.subrange(a as int, k as int);
        assert(vs.subrange(a as int, k + 1).drop_last() =~= prev);
        if k > a {
            append_str(&mut out, "\n");
        }
        append_str(&mut out, ls[k]);
        if k == a {
            assert(out@ =~= ls@[k as int]@);
        }
        k = k + 1;
    }
    out
}

fn trimmed_starts_with(l: &str, p: &str) -> (b: bool)
    ensures
        b == starts_with(trim(l@), p@),
{
    let v = chars_of(l);
    let (a, e) = trim_range(&v, 0, v.len());
    assert(v@.subrange(0, v.len() as int) =~= v@);
    let w = chars_of(p);
    range_starts_with(&v, a, e, &w)
}

/// Scan back from `decl_line` (0-based) for a `/*!`, `/**`, `/*` or `///`
/// comment block that immediately precedes the declaration.  Returns
/// `None` when there is no such comment.
pub fn extract_preceding_comment(lines: &[&str], decl_line: usize) -> (r: Option<String>)
    requires
        decl_line <= lines@.len(),
    ensures
        match r {
            Some(s) => preceding_comment(lines@.map_values(|s: &str| s@), decl_line as int) == Some(s@),
            None => preceding_comment(lines@.map_values(|s: &str| s@), decl_line as int) is None,
        },
{
    let ghost ls = lines@.map_values(|s: &str| s@);
    if decl_line == 0 {
        return None;
    }
    let end = decl_line;
    assert(ls[end - 1] == lines@[end - 1]@);
    let v = chars_of(lines[end - 1]);
    let (la, lb) = trim_range(&v, 0, v.len());
    assert(v@.subrange(0, v.len() as int) =~= v@);
    if la == lb {
        return None;
    }
    let closer = chars_of("*/");
    if range_ends_with(&v, la, lb, &closer) {
        let mut start = end - 1;
        while start > 0
            invariant
                0 <= start < end <= lines@.len(),
                ls == lines@.map_values(|s: &str| s@),
                block_comment_start(ls, end - 1) == block_comment_start(ls, start as int),
            ensures
                0 <= start < end,
                start == block_comment_start(ls, end - 1),
            decreases start,
        {
            assert(ls[start as int] == lines@[start as int]@);
            if trimmed_starts_with(lines[start], "/*!") || trimmed_starts_with(lines[start], "/**")
                || trimmed_starts_with(lines[start], "/*") {
                proof {
                    reveal_strlit("/*!");
                    reveal_strlit("/**");
                    reveal_strlit("/*");
                    let t = trim(ls[start as int]);
                    if starts_with(t, "/*!"@) || starts_with(t, "/**"@) {
                        assert(t.take(3)[0] == '/' && t.take(3)[1] == '*');
                        assert(t.take(2) =~= "/*"@);
                    }
                    assert(starts_with(t, "/*"@));
                    assert(block_comment_start(ls, start as int) == start);
                }
                break;
            }
            start = start - 1;
        }
        let block = join_lines(lines, start, end);
        let cleaned = clean_raw_comment(block.as_str());
        if !cleaned.as_str().is_empty() {
            return Some(cleaned);
        }
    }
    if trimmed_starts_with(lines[end - 1], "///") || trimmed_starts_with(lines[end - 1], "//!") {
        let mut start = end - 1;
        while start > 0
            invariant
                0 <= start < end <= lines@.len(),
                ls == lines@.map_values(|s: &str| s@),
                line_comment_start(ls, end - 1) == line_comment_start(ls, start as int),
            ensures
                0 <= start < end,
                start == line_comment_start(ls, end - 1),
            decreases start,
        {
            assert(ls[start - 1] == lines@[start - 1]@);
            if trimmed_starts_with(lines[start - 1], "///") || trimmed_starts_with(lines[start - 1], "//!") {
                start = start - 1;
            } else {
                break;
            }
        }
        let block = join_lines(lines, start, end);
        let cleaned = clean_raw_comment(block.as_str());
        if !cleaned.as_str().is_empty() {
            return Some(cleaned);
        }
    }
    None
}

} // verus!
