//! Folding ranges for Objective-C source files.
//!
//! Collapsible regions:
//!
//! - `@interface ... @end`, `@implementation ... @end`, `@protocol ... @end`
//!   blocks and their category forms
//! - method and function bodies, other brace blocks
//! - multi-line `/* ... */` comments
//! - runs of consecutive `#import` / `#include` lines
//! - `#pragma mark` sections
//! - `NS_ASSUME_NONNULL_BEGIN ... NS_ASSUME_NONNULL_END` regions

use vstd::prelude::*;
use vstd::string::StringSliceAdditionalSpecFns;

use crate::parser::{is_tree_of, ParsedFile};
use crate::syntax_tree::{node_bytes, node_text, SyntaxTree};
use crate::text::{
    chars_of, lines, range_equals, range_starts_with, starts_with, str_eq, string_of,
    to_owned_string, trim, trimmed_line_spans,
};

verus! {

#[derive(Debug, Clone, Copy, PartialEq, Eq, Structural)]
pub enum FoldingRangeKind {
    Comment,
    Imports,
    Region,
}

/// A foldable line range.
#[derive(Debug, Clone)]
pub struct FoldingRange {
    pub start_line: u32,
    pub end_line: u32,
    pub kind: Option<FoldingRangeKind>,
    /// The text shown in place of the folded lines.
    pub collapsed_text: Option<String>,
}

/// A folding range as plain values.
pub struct FoldView {
    pub start_line: u32,
    pub end_line: u32,
    pub kind: Option<FoldingRangeKind>,
    pub collapsed_text: Option<Seq<char>>,
}

impl View for FoldingRange {
    type V = FoldView;

    open spec fn view(&self) -> FoldView {
        FoldView {
            start_line: self.start_line,
            end_line: self.end_line,
            kind: self.kind,
            collapsed_text: match self.collapsed_text {
                Some(s) => Some(s@),
                None => None,
            },
        }
    }
}

pub open spec fn fold_views(v: Seq<FoldingRange>) -> Seq<FoldView> {
    v.map_values(|r: FoldingRange| r@)
}

pub open spec fn fold(start: int, end: int, kind: FoldingRangeKind, text: Option<Seq<char>>) -> FoldView {
    FoldView { start_line: start as u32, end_line: end as u32, kind: Some(kind), collapsed_text: text }
}

proof fn lemma_fold_views_push(v: Seq<FoldingRange>, r: FoldingRange)
    ensures
        fold_views(v.push(r)) == fold_views(v).push(r@),
{
    assert(fold_views(v.push(r)) =~= fold_views(v).push(r@));
}

fn new_fold(start: u32, end: u32, kind: FoldingRangeKind, text: Option<String>) -> (r: FoldingRange)
    ensures
        r.start_line == start,
        r.end_line == end,
        r.kind == Some(kind),
        r.collapsed_text == text,
{
    FoldingRange { start_line: start, end_line: end, kind: Some(kind), collapsed_text: text }
}

// ---------------------------------------------------------------------------
// Folds read from the syntax tree
// ---------------------------------------------------------------------------

/// The label of a declaration block kind in a folded region.
pub open spec fn display_name(kind: Seq<char>) -> Seq<char> {
    if kind == "class_interface"@ {
        "@interface"@
    } else if kind == "class_implementation"@ {
        "@implementation"@
    } else if kind == "protocol_declaration"@ {
        "@protocol"@
    } else if kind == "category_interface"@ {
        "@interface (category)"@
    } else if kind == "category_implementation"@ {
        "@implementation (category)"@
    } else {
        kind
    }
}

/// The label of a declaration block kind in a folded region.
pub fn kind_display_name(kind: &str) -> (r: &str)
    ensures
        r@ == display_name(kind@),
{
    if str_eq(kind, "class_interface") {
        "@interface"
    } else if str_eq(kind, "class_implementation") {
        "@implementation"
    } else if str_eq(kind, "protocol_declaration") {
        "@protocol"
    } else if str_eq(kind, "category_interface") {
        "@interface (category)"
    } else if str_eq(kind, "category_implementation") {
        "@implementation (category)"
    } else {
        kind
    }
}

pub open spec fn is_block_kind(k: Seq<char>) -> bool {
    ||| k == "class_interface"@
    ||| k == "class_implementation"@
    ||| k == "protocol_declaration"@
    ||| k == "category_interface"@
    ||| k == "category_implementation"@
}

pub open spec fn is_body_kind(k: Seq<char>) -> bool {
    k == "method_definition"@ || k == "function_definition"@
}

/// Whether node bytes start with `/*`.
pub open spec fn opens_block_comment(b: Seq<u8>) -> bool {
    b.len() >= 2 && b[0] == 47u8 && b[1] == 42u8
}

/// The fold of node `i` alone (its parent has kind `parent`): multi-line
/// blocks, bodies, brace blocks that are not a body, and `/*` comments.
pub open spec fn node_fold(t: SyntaxTree, src: Seq<u8>, i: int, parent: Seq<char>) -> Seq<FoldView> {
    let k = t.kind(i);
    let sp = t.span(i);
    let s = sp.start_row as u32;
    let e = sp.end_row as u32;
    if !(e > s) {
        seq![]
    } else if is_block_kind(k) {
        seq![fold(s as int, e as int, FoldingRangeKind::Region, Some(display_name(k) + "..."@))]
    } else if is_body_kind(k) {
        seq![fold(s as int, e as int, FoldingRangeKind::Region, None)]
    } else if k == "compound_statement"@ && !is_body_kind(parent) {
        seq![fold(s as int, e as int, FoldingRangeKind::Region, None)]
    } else if k == "comment"@ && opens_block_comment(node_bytes(src, sp)) {
        seq![fold(s as int, e as int, FoldingRangeKind::Comment, Some("/* ... */"@))]
    } else {
        seq![]
    }
}

/// The folds of the subtree under node `i`, the node before its
/// children, children in order.
pub open spec fn tree_folds(t: SyntaxTree, src: Seq<u8>, i: int, parent: Seq<char>) -> Seq<FoldView>
    decreases t.depth_left(i), t.child_count(i) + 1,
{
    if t.wf() && 0 <= i < t.nodes.len() {
        node_fold(t, src, i, parent) + child_folds(t, src, i, 0)
    } else {
        seq![]
    }
}

/// The folds of the subtrees under the children `j..` of node `i`.
pub open spec fn child_folds(t: SyntaxTree, src: Seq<u8>, i: int, j: int) -> Seq<FoldView>
    decreases t.depth_left(i), t.child_count(i) - j,
{
    if t.wf() && 0 <= i < t.nodes.len() && 0 <= j < t.child_count(i) {
        let c = t.child(i, j);
        proof {
            assert(i < t.children@[i]@[j] < t.nodes.len());
        }
        tree_folds(t, src, c, t.kind(i)) + child_folds(t, src, i, j + 1)
    } else {
        seq![]
    }
}

fn node_fold_exec(t: &SyntaxTree, src: &str, i: usize, parent: &str) -> (r: Option<FoldingRange>)
    requires
        t.wf(),
        i < t.nodes.len(),
    ensures
        node_fold(*t, src.spec_bytes(), i as int, parent@) == (match r {
            Some(f) => seq![f@],
            None => Seq::<FoldView>::empty(),
        }),
{
    let k = t.nodes[i].kind.as_str();
    let sp = t.nodes[i].span;
    let s = sp.start_row as u32;
    let e = sp.end_row as u32;
    if !(e > s) {
        return None;
    }
    if str_eq(k, "class_interface") || str_eq(k, "class_implementation") || str_eq(k, "protocol_declaration")
        || str_eq(k, "category_interface") || str_eq(k, "category_implementation") {
        let mut text = to_owned_string(kind_display_name(k));
        text.append("...");
        return Some(new_fold(s, e, FoldingRangeKind::Region, Some(text)));
    }
    if str_eq(k, "method_definition") || str_eq(k, "function_definition") {
        return Some(new_fold(s, e, FoldingRangeKind::Region, None));
    }
    if str_eq(k, "compound_statement") && !(str_eq(parent, "method_definition") || str_eq(
        parent,
        "function_definition",
    )) {
        return Some(new_fold(s, e, FoldingRangeKind::Region, None));
    }
    if str_eq(k, "comment") {
        let b = node_text(src, sp).as_bytes();
        if b.len() >= 2 && b[0] == 47u8 && b[1] == 42u8 {
            return Some(new_fold(s, e, FoldingRangeKind::Comment, Some(to_owned_string("/* ... */"))));
        }
    }
    None
}

/// Append the folds of the subtree under node `i` to `out`.
fn collect_folding(t: &SyntaxTree, src: &str, i: usize, parent: &str, out: &mut Vec<FoldingRange>)
    requires
        t.wf(),
        i < t.nodes.len(),
    ensures
        fold_views(final(out)@) == fold_views(old(out)@) + tree_folds(*t, src.spec_bytes(), i as int, parent@),
    decreases t.depth_left(i as int),
{
    let ghost src_b = src.spec_bytes();
    let ghost start = fold_views(out@);
    if let Some(f) = node_fold_exec(t, src, i, parent) {
        proof {
            lemma_fold_views_push(out@, f);
        }
        out.push(f);
    }
    assert(fold_views(out@) == start + node_fold(*t, src_b, i as int, parent@));
    let kind = t.nodes[i].kind.as_str();
    let n = t.children[i].len();
    let mut j: usize = 0;
    while j < n
        invariant
            t.wf(),
            i < t.nodes.len(),
            n == t.child_count(i as int),
            j <= n,
            kind@ == t.kind(i as int),
            src_b == src.spec_bytes(),
            fold_views(out@) + child_folds(*t, src_b, i as int, j as int) == start + tree_folds(
                *t,
                src_b,
                i as int,
                parent@,
            ),
        decreases n - j,
    {
        let c = t.children[i][j];
        assert(t.child(i as int, j as int) == c);
        assert(i < c < t.nodes.len());
        let ghost before = fold_views(out@);
        collect_folding(t, src, c, kind, out);
        assert(child_folds(*t, src_b, i as int, j as int) == tree_folds(*t, src_b, c as int, kind@)
            + child_folds(*t, src_b, i as int, j + 1));
        assert(fold_views(out@) + child_folds(*t, src_b, i as int, j + 1) == before + child_folds(
            *t,
            src_b,
            i as int,
            j as int,
        ));
        j = j + 1;
    }
}

// ---------------------------------------------------------------------------
// Folds read from the lines of the source
// ---------------------------------------------------------------------------

pub open spec fn is_import_line(l: Seq<char>) -> bool {
    starts_with(trim(l), "#import"@) || starts_with(trim(l), "#include"@)
}

/// The last line of the run of import lines that goes on from line `i`.
pub open spec fn import_run_end(ls: Seq<Seq<char>>, i: int) -> int
    decreases ls.len() - i,
{
    if 0 <= i && i + 1 < ls.len() && is_import_line(ls[i + 1]) {
        import_run_end(ls, i + 1)
    } else {
        i
    }
}

pub proof fn lemma_import_run_end(ls: Seq<Seq<char>>, i: int)
    requires
        0 <= i < ls.len(),
    ensures
        i <= import_run_end(ls, i) < ls.len(),
    decreases ls.len() - i,
{
    if i + 1 < ls.len() && is_import_line(ls[i + 1]) {
        lemma_import_run_end(ls, i + 1);
    }
}

/// Folds over the runs of two or more import lines, from line `i` on.
pub open spec fn import_folds_from(ls: Seq<Seq<char>>, i: int) -> Seq<FoldView>
    decreases ls.len() - i,
{
    if i < 0 || i >= ls.len() {
        seq![]
    } else if is_import_line(ls[i]) {
        let e = import_run_end(ls, i);
        proof {
            lemma_import_run_end(ls, i);
        }
        (if e > i {
            seq![fold(i, e, FoldingRangeKind::Imports, Some("#import ..."@))]
        } else {
            seq![]
        }) + import_folds_from(ls, e + 1)
    } else {
        import_folds_from(ls, i + 1)
    }
}

pub open spec fn is_pragma_line(l: Seq<char>) -> bool {
    starts_with(trim(l), "#pragma mark"@)
}

pub open spec fn is_end_line(l: Seq<char>) -> bool {
    trim(l) == "@end"@
}

/// The first line from `j` on that is a `#pragma mark` or an `@end`.
pub open spec fn next_section_break(ls: Seq<Seq<char>>, j: int) -> Option<int>
    decreases ls.len() - j,
{
    if j < 0 || j >= ls.len() {
        None
    } else if is_pragma_line(ls[j]) || is_end_line(ls[j]) {
        Some(j)
    } else {
        next_section_break(ls, j + 1)
    }
}

/// A `#pragma mark` section at line `s` ends on the line before the next
/// `#pragma mark` or `@end`, or on the last line.
pub open spec fn pragma_section_end(ls: Seq<Seq<char>>, s: int) -> int {
    let stop = match next_section_break(ls, s + 1) {
        Some(b) => b,
        None => ls.len() as int,
    };
    if stop > 0 {
        stop - 1
    } else {
        0
    }
}

/// Folds over `#pragma mark` sections, from line `i` on.
pub open spec fn pragma_folds_from(ls: Seq<Seq<char>>, i: int) -> Seq<FoldView>
    decreases ls.len() - i,
{
    if i < 0 || i >= ls.len() {
        seq![]
    } else {
        (if is_pragma_line(ls[i]) && pragma_section_end(ls, i) > i {
            seq![fold(i, pragma_section_end(ls, i), FoldingRangeKind::Region, Some(trim(ls[i])))]
        } else {
            seq![]
        }) + pragma_folds_from(ls, i + 1)
    }
}

/// Folds over `NS_ASSUME_NONNULL_BEGIN` / `NS_ASSUME_NONNULL_END` pairs,
/// from line `i` on, with the begin lines `open` not yet closed: an end
/// line closes the latest open begin line; an end line with none open is
/// passed over.
pub open spec fn nonnull_folds_from(ls: Seq<Seq<char>>, i: int, open: Seq<int>) -> Seq<FoldView>
    decreases ls.len() - i,
{
    if i < 0 || i >= ls.len() {
        seq![]
    } else if trim(ls[i]) == "NS_ASSUME_NONNULL_BEGIN"@ {
        nonnull_folds_from(ls, i + 1, open.push(i))
    } else if trim(ls[i]) == "NS_ASSUME_NONNULL_END"@ && open.len() > 0 {
        seq![fold(open.last(), i, FoldingRangeKind::Region, Some("NS_ASSUME_NONNULL..."@))]
            + nonnull_folds_from(ls, i + 1, open.drop_last())
    } else {
        nonnull_folds_from(ls, i + 1, open)
    }
}

/// Folds over runs of two or more `#import` / `#include` lines.
fn collect_import_folds(v: &Vec<char>, ts: &Vec<(usize, usize)>) -> (r: Vec<FoldingRange>)
    requires
        ts.len() == lines(v@).len(),
        forall|k: int| #![trigger ts@[k]] 0 <= k < ts.len() ==> ts@[k].0 <= ts@[k].1 <= v.len(),
        forall|k: int|
            #![trigger ts@[k]]
            0 <= k < ts.len() ==> v@.subrange(ts@[k].0 as int, ts@[k].1 as int) == trim(lines(v@)[k]),
    ensures
        fold_views(r@) == import_folds_from(lines(v@), 0),
{
    let ghost ls = lines(v@);
    let imp = chars_of("#import");
    let inc = chars_of("#include");
    let n = ts.len();
    let mut r: Vec<FoldingRange> = Vec::new();
    let mut i: usize = 0;
    while i < n
        invariant
            i <= n,
            n == ts.len(),
            ls == lines(v@),
            ls.len() == n,
            imp@ == "#import"@,
            inc@ == "#include"@,
            forall|k: int| #![trigger ts@[k]] 0 <= k < ts.len() ==> ts@[k].0 <= ts@[k].1 <= v.len(),
            forall|k: int|
                #![trigger ts@[k]]
                0 <= k < ts.len() ==> v@.subrange(ts@[k].0 as int, ts@[k].1 as int) == trim(ls[k]),
            fold_views(r@) + import_folds_from(ls, i as int) == import_folds_from(ls, 0),
        decreases n - i,
    {
        let (a, b) = ts[i];
        assert(v@.subrange(a as int, b as int) == trim(ls[i as int]));
        if range_starts_with(v, a, b, &imp) || range_starts_with(v, a, b, &inc) {
            let start = i;
            let ghost folds_here = import_folds_from(ls, start as int);
            while i + 1 < n
                invariant
                    start <= i < n,
                    n == ts.len(),
                    ls.len() == n,
                    imp@ == "#import"@,
                    inc@ == "#include"@,
                    forall|k: int| #![trigger ts@[k]] 0 <= k < ts.len() ==> ts@[k].0 <= ts@[k].1 <= v.len(),
                    forall|k: int|
                        #![trigger ts@[k]]
                        0 <= k < ts.len() ==> v@.subrange(ts@[k].0 as int, ts@[k].1 as int) == trim(ls[k]),
                    import_run_end(ls, start as int) == import_run_end(ls, i as int),
                ensures
                    start <= i < n,
                    import_run_end(ls, start as int) == i,
                decreases n - i,
            {
                let (c, d) = ts[i + 1];
                assert(v@.subrange(c as int, d as int) == trim(ls[i + 1]));
                if range_starts_with(v, c, d, &imp) || range_starts_with(v, c, d, &inc) {
                    i = i + 1;
                } else {
                    break;
                }
            }
            assert(import_run_end(ls, i as int) == i);
            if i > start {
                let f = new_fold(
                    start as u32,
                    i as u32,
                    FoldingRangeKind::Imports,
                    Some(to_owned_string("#import ...")),
                );
                proof {
                    lemma_fold_views_push(r@, f);
                }
                r.push(f);
            }
            assert(folds_here == (if i > start {
                seq![fold(start as int, i as int, FoldingRangeKind::Imports, Some("#import ..."@))]
            } else {
                Seq::<FoldView>::empty()
            }) + import_folds_from(ls, i + 1));
        }
        i = i + 1;
    }
    r
}

proof fn lemma_next_section_break(ls: Seq<Seq<char>>, j0: int, j: int)
    requires
        0 <= j0 <= j <= ls.len(),
        forall|k: int| j0 <= k < j ==> !(is_pragma_line(#[trigger] ls[k]) || is_end_line(ls[k])),
    ensures
        j == ls.len() ==> next_section_break(ls, j0) is None,
        j < ls.len() && (is_pragma_line(ls[j]) || is_end_line(ls[j])) ==> next_section_break(ls, j0)
            == Some(j),
    decreases j - j0,
{
    if j0 < j {
        lemma_next_section_break(ls, j0 + 1, j);
    }
}

/// Folds over `#pragma mark` sections.
fn collect_pragma_mark_folds(v: &Vec<char>, ts: &Vec<(usize, usize)>) -> (r: Vec<FoldingRange>)
    requires
        ts.len() == lines(v@).len(),
        forall|k: int| #![trigger ts@[k]] 0 <= k < ts.len() ==> ts@[k].0 <= ts@[k].1 <= v.len(),
        forall|k: int|
            #![trigger ts@[k]]
            0 <= k < ts.len() ==> v@.subrange(ts@[k].0 as int, ts@[k].1 as int) == trim(lines(v@)[k]),
    ensures
        fold_views(r@) == pragma_folds_from(lines(v@), 0),
{
    let ghost ls = lines(v@);
    let pm = chars_of("#pragma mark");
    let end_kw = chars_of("@end");
    let n = ts.len();
    let mut r: Vec<FoldingRange> = Vec::new();
    let mut i: usize = 0;
    while i < n
        invariant
            i <= n,
            n == ts.len(),
            ls == lines(v@),
            ls.len() == n,
            pm@ == "#pragma mark"@,
            end_kw@ == "@end"@,
            forall|k: int| #![trigger ts@[k]] 0 <= k < ts.len() ==> ts@[k].0 <= ts@[k].1 <= v.len(),
            forall|k: int|
                #![trigger ts@[k]]
                0 <= k < ts.len() ==> v@.subrange(ts@[k].0 as int, ts@[k].1 as int) == trim(ls[k]),
            fold_views(r@) + pragma_folds_from(ls, i as int) == pragma_folds_from(ls, 0),
        decreases n - i,
    {
        let (a, b) = ts[i];
        assert(v@.subrange(a as int, b as int) == trim(ls[i as int]));
        if range_starts_with(v, a, b, &pm) {
            let mut j = i + 1;
            while j < n
                invariant
                    i < j <= n,
                    n == ts.len(),
                    ls.len() == n,
                    pm@ == "#pragma mark"@,
                    end_kw@ == "@end"@,
                    forall|k: int| #![trigger ts@[k]] 0 <= k < ts.len() ==> ts@[k].0 <= ts@[k].1 <= v.len(),
                    forall|k: int|
                        #![trigger ts@[k]]
                        0 <= k < ts.len() ==> v@.subrange(ts@[k].0 as int, ts@[k].1 as int) == trim(ls[k]),
                    forall|k: int| i + 1 <= k < j ==> !(is_pragma_line(#[trigger] ls[k]) || is_end_line(ls[k])),
                ensures
                    i < j <= n,
                    forall|k: int| i + 1 <= k < j ==> !(is_pragma_line(#[trigger] ls[k]) || is_end_line(ls[k])),
                    j == n || is_pragma_line(ls[j as int]) || is_end_line(ls[j as int]),
                decreases n - j,
            {
                let (c, d) = ts[j];
                assert(v@.subrange(c as int, d as int) == trim(ls[j as int]));
                if range_starts_with(v, c, d, &pm) || range_equals(v, c, d, &end_kw) {
                    break;
                }
                j = j + 1;
            }
            proof {
                lemma_next_section_break(ls, i + 1, j as int);
            }
            let end = j - 1;
            assert(pragma_section_end(ls, i as int) == end);
            if end > i {
                let f = new_fold(
                    i as u32,
                    end as u32,
                    FoldingRangeKind::Region,
                    Some(string_of(v, a, b)),
                );
                proof {
                    lemma_fold_views_push(r@, f);
                }
                r.push(f);
            }
        }
        i = i + 1;
    }
    r
}

/// Folds over `NS_ASSUME_NONNULL_BEGIN ... NS_ASSUME_NONNULL_END` pairs.
fn collect_nonnull_folds(v: &Vec<char>, ts: &Vec<(usize, usize)>) -> (r: Vec<FoldingRange>)
    requires
        ts.len() == lines(v@).len(),
        forall|k: int| #![trigger ts@[k]] 0 <= k < ts.len() ==> ts@[k].0 <= ts@[k].1 <= v.len(),
        forall|k: int|
            #![trigger ts@[k]]
            0 <= k < ts.len() ==> v@.subrange(ts@[k].0 as int, ts@[k].1 as int) == trim(lines(v@)[k]),
    ensures
        fold_views(r@) == nonnull_folds_from(lines(v@), 0, seq![]),
{
    let ghost ls = lines(v@);
    let begin_kw = chars_of("NS_ASSUME_NONNULL_BEGIN");
    let end_kw = chars_of("NS_ASSUME_NONNULL_END");
    let n = ts.len();
    let mut r: Vec<FoldingRange> = Vec::new();
    let mut stack: Vec<usize> = Vec::new();
    let ghost mut open: Seq<int> = seq![];
    let mut i: usize = 0;
    while i < n
        invariant
            i <= n,
            n == ts.len(),
            ls == lines(v@),
            ls.len() == n,
            begin_kw@ == "NS_ASSUME_NONNULL_BEGIN"@,
            end_kw@ == "NS_ASSUME_NONNULL_END"@,
            forall|k: int| #![trigger ts@[k]] 0 <= k < ts.len() ==> ts@[k].0 <= ts@[k].1 <= v.len(),
            forall|k: int|
                #![trigger ts@[k]]
                0 <= k < ts.len() ==> v@.subrange(ts@[k].0 as int, ts@[k].1 as int) == trim(ls[k]),
            stack@.map_values(|x: usize| x as int) == open,
            forall|k: int| 0 <= k < open.len() ==> #[trigger] open[k] < n,
            fold_views(r@) + nonnull_folds_from(ls, i as int, open) == nonnull_folds_from(ls, 0, seq![]),
        decreases n - i,
    {
        let (a, b) = ts[i];
        assert(v@.subrange(a as int, b as int) == trim(ls[i as int]));
        if range_equals(v, a, b, &begin_kw) {
            let ghost old_stack = stack@;
            stack.push(i);
            proof {
                open = open.push(i as int);
                assert(stack@.map_values(|x: usize| x as int) =~= old_stack.map_values(|x: usize| x as int).push(i as int));
            }
        } else if range_equals(v, a, b, &end_kw) {
            let ghost old_stack = stack@;
            if let Some(s) = stack.pop() {
                assert(stack@.map_values(|x: usize| x as int) =~= old_stack.map_values(|x: usize| x as int).drop_last());
                assert(s as int == open.last());
                let f = new_fold(
                    s as u32,
                    i as u32,
                    FoldingRangeKind::Region,
                    Some(to_owned_string("NS_ASSUME_NONNULL...")),
                );
                proof {
                    lemma_fold_views_push(r@, f);
                    open = open.drop_last();
                }
                r.push(f);
            }
        }
        i = i + 1;
    }
    r
}

// ---------------------------------------------------------------------------
// Ordering by start line
// ---------------------------------------------------------------------------

/// The first index from `j` on whose range starts on line `line` or later.
pub open spec fn first_at_or_after(s: Seq<FoldView>, line: u32, j: int) -> int
    decreases s.len() - j,
{
    if j < 0 || j >= s.len() {
        s.len() as int
    } else if s[j].start_line >= line {
        j
    } else {
        first_at_or_after(s, line, j + 1)
    }
}

/// `x` put in front of the first range of `s` that starts on `x`'s line
/// or later.
pub open spec fn insert_by_start(s: Seq<FoldView>, x: FoldView) -> Seq<FoldView> {
    let p = first_at_or_after(s, x.start_line, 0);
    s.take(p).push(x) + s.skip(p)
}

/// `s` ordered by start line; ranges that start on the same line keep
/// their order (the result of a stable sort by start line).
pub open spec fn sort_by_start(s: Seq<FoldView>) -> Seq<FoldView>
    decreases s.len(),
{
    if s.len() == 0 {
        s
    } else {
        insert_by_start(sort_by_start(s.drop_first()), s[0])
    }
}

pub open spec fn sorted_by_start(s: Seq<FoldView>) -> bool {
    forall|a: int, b: int| 0 <= a <= b < s.len() ==> s[a].start_line <= s[b].start_line
}

proof fn lemma_first_at_or_after(s: Seq<FoldView>, line: u32, j: int)
    requires
        0 <= j <= s.len(),
    ensures
        j <= first_at_or_after(s, line, j) <= s.len(),
        forall|k: int| j <= k < first_at_or_after(s, line, j) ==> s[k].start_line < line,
        first_at_or_after(s, line, j) < s.len() ==> s[first_at_or_after(s, line, j)].start_line >= line,
    decreases s.len() - j,
{
    if j < s.len() && s[j].start_line < line {
        lemma_first_at_or_after(s, line, j + 1);
    }
}

/// Sorting by start line gives a sequence ordered by start line, with the
/// same ranges.
pub proof fn lemma_sort_by_start(s: Seq<FoldView>)
    ensures
        sorted_by_start(sort_by_start(s)),
        sort_by_start(s).to_multiset() == s.to_multiset(),
    decreases s.len(),
{
    if s.len() > 0 {
        let rest = sort_by_start(s.drop_first());
        lemma_sort_by_start(s.drop_first());
        let x = s[0];
        let p = first_at_or_after(rest, x.start_line, 0);
        lemma_first_at_or_after(rest, x.start_line, 0);
        let r = insert_by_start(rest, x);
        assert forall|a: int, b: int| 0 <= a <= b < r.len() implies r[a].start_line <= r[b].start_line by {
            if a < p && b > p {
                assert(r[b] == rest[b - 1]);
            } else if a == p && b > p {
                assert(r[b] == rest[b - 1]);
            } else if a > p {
                assert(r[a] == rest[a - 1] && r[b] == rest[b - 1]);
            }
        }
        broadcast use vstd::seq_lib::group_to_multiset_ensures;

        vstd::seq_lib::lemma_multiset_commutative(rest.take(p).push(x), rest.skip(p));
        vstd::seq_lib::lemma_multiset_commutative(rest.take(p), rest.skip(p));
        assert(rest.take(p) + rest.skip(p) =~= rest);
        assert(r.to_multiset() =~= rest.to_multiset().insert(x));
        assert(s =~= seq![x] + s.drop_first());
        vstd::seq_lib::lemma_multiset_commutative(seq![x], s.drop_first());
        assert(seq![x].to_multiset() =~= vstd::multiset::Multiset::empty().insert(x));
        assert(s.to_multiset() =~= s.drop_first().to_multiset().insert(x));
    }
}

/// The ranges of `v` in a stable order by start line.
fn sort_folds(v: Vec<FoldingRange>) -> (r: Vec<FoldingRange>)
    ensures
        fold_views(r@) == sort_by_start(fold_views(v@)),
{
    let ghost orig = fold_views(v@);
    let mut v = v;
    let mut r: Vec<FoldingRange> = Vec::new();
    assert(orig.skip(v.len() as int) =~= Seq::<FoldView>::empty());
    while v.len() > 0
        invariant
            v.len() <= orig.len(),
            fold_views(v@) == orig.take(v.len() as int),
            fold_views(r@) == sort_by_start(orig.skip(v.len() as int)),
        decreases v.len(),
    {
        let ghost n = v.len() as int;
        let ghost old_v = v@;
        let x = v.pop().unwrap();
        assert(fold_views(old_v)[n - 1] == old_v[n - 1]@);
        assert(fold_views(v@) =~= orig.take(n - 1));
        assert(x@ == orig[n - 1]);
        assert(orig.skip(n - 1).drop_first() =~= orig.skip(n));
        let ghost rv = fold_views(r@);
        let mut p: usize = 0;
        while p < r.len() && r[p].start_line < x.start_line
            invariant
                p <= r.len(),
                rv == fold_views(r@),
                first_at_or_after(rv, x.start_line, 0) == first_at_or_after(rv, x.start_line, p as int),
            decreases r.len() - p,
        {
            p = p + 1;
        }
        assert(first_at_or_after(rv, x.start_line, p as int) == p);
        r.insert(p, x);
        assert(fold_views(r@) =~= rv.take(p as int).push(x@) + rv.skip(p as int));
    }
    assert(orig.skip(0) =~= orig);
    r
}

// ---------------------------------------------------------------------------
// All folds of a file
// ---------------------------------------------------------------------------

/// Every fold of a file, in the order they are found: the tree's, the
/// import runs, the `#pragma mark` sections, the nonnull regions.
pub open spec fn all_folds(t: SyntaxTree, src: Seq<u8>, text: Seq<char>) -> Seq<FoldView> {
    tree_folds(t, src, 0, Seq::empty()) + import_folds_from(lines(text), 0) + pragma_folds_from(
        lines(text),
        0,
    ) + nonnull_folds_from(lines(text), 0, seq![])
}

/// The folding ranges of `source` with its syntax tree `t`, ordered by
/// start line (ranges on the same line in the order `all_folds` gives).
pub fn folding_ranges_of(t: &SyntaxTree, source: &str) -> (r: Vec<FoldingRange>)
    requires
        t.wf(),
        t.nodes.len() >= 1,
    ensures
        fold_views(r@) == sort_by_start(all_folds(*t, source.spec_bytes(), source@)),
        sorted_by_start(fold_views(r@)),
{
    let mut ranges: Vec<FoldingRange> = Vec::new();
    proof {
        reveal_strlit("");
        assert(""@ =~= Seq::<char>::empty());
        assert(fold_views(ranges@) =~= Seq::<FoldView>::empty());
    }
    collect_folding(t, source, 0, "", &mut ranges);
    assert(fold_views(ranges@) =~= tree_folds(*t, source.spec_bytes(), 0, Seq::empty()));
    let v = chars_of(source);
    let ts = trimmed_line_spans(&v);
    let mut imports = collect_import_folds(&v, &ts);
    let mut pragmas = collect_pragma_mark_folds(&v, &ts);
    let mut nonnull = collect_nonnull_folds(&v, &ts);
    let ghost a = fold_views(ranges@);
    let ghost b = fold_views(imports@);
    let ghost c = fold_views(pragmas@);
    let ghost d = fold_views(nonnull@);
    let ghost ra = ranges@;
    let ghost rb = imports@;
    let ghost rc = pragmas@;
    let ghost rd = nonnull@;
    ranges.append(&mut imports);
    ranges.append(&mut pragmas);
    ranges.append(&mut nonnull);
    assert(ranges@ == ra + rb + rc + rd);
    assert(fold_views(ranges@) =~= a + b + c + d);
    assert(a == tree_folds(*t, source.spec_bytes(), 0, Seq::empty()));
    assert(v@ == source@);
    assert(b == import_folds_from(lines(source@), 0));
    assert(fold_views(ranges@) == all_folds(*t, source.spec_bytes(), source@));
    let r = sort_folds(ranges);
    proof {
        lemma_sort_by_start(all_folds(*t, source.spec_bytes(), source@));
    }
    r
}

/// Compute all folding ranges in the parsed file.
pub fn folding_ranges(file: &ParsedFile) -> (r: Vec<FoldingRange>)
    ensures
        exists|t: SyntaxTree|
            t.wf() && is_tree_of(t, file.text()) && #[trigger] fold_views(r@) == sort_by_start(
                all_folds(t, vstd::utf8::encode_utf8(file.text()), file.text()),
            ),
{
    let t = file.syntax();
    folding_ranges_of(&t, file.source())
}

/// The node reached from node `a` by following the child positions of
/// `path` (`None` when a position is out of range).
pub open spec fn node_at(t: SyntaxTree, a: int, path: Seq<int>) -> Option<int>
    decreases path.len(),
{
    if path.len() == 0 {
        Some(a)
    } else if 0 <= path[0] < t.child_count(a) {
        node_at(t, t.child(a, path[0]), path.drop_first())
    } else {
        None
    }
}

proof fn lemma_child_folds_contains(t: SyntaxTree, src: Seq<u8>, a: int, i0: int, j: int, x: FoldView)
    requires
        t.wf(),
        0 <= a < t.nodes.len(),
        0 <= i0 <= j < t.child_count(a),
        tree_folds(t, src, t.child(a, j), t.kind(a)).contains(x),
    ensures
        child_folds(t, src, a, i0).contains(x),
    decreases j - i0,
{
    let c = t.child(a, i0);
    assert(a < t.children@[a]@[i0] < t.nodes.len());
    let here = tree_folds(t, src, c, t.kind(a));
    let rest = child_folds(t, src, a, i0 + 1);
    assert(child_folds(t, src, a, i0) == here + rest);
    if i0 == j {
        let k = choose|k: int| 0 <= k < here.len() && here[k] == x;
        assert((here + rest)[k] == x);
    } else {
        lemma_child_folds_contains(t, src, a, i0 + 1, j, x);
        let k = choose|k: int| 0 <= k < rest.len() && rest[k] == x;
        assert((here + rest)[here.len() + k] == x);
    }
}

proof fn lemma_subtree_holds_child_fold(
    t: SyntaxTree,
    src: Seq<u8>,
    a: int,
    q: Seq<char>,
    path: Seq<int>,
    p: int,
    j: int,
    x: FoldView,
)
    requires
        t.wf(),
        0 <= a < t.nodes.len(),
        node_at(t, a, path) == Some(p),
        0 <= j < t.child_count(p),
        node_fold(t, src, t.child(p, j), t.kind(p)).contains(x),
    ensures
        tree_folds(t, src, a, q).contains(x),
    decreases path.len(),
{
    let nf = node_fold(t, src, a, q);
    let cf = child_folds(t, src, a, 0);
    assert(tree_folds(t, src, a, q) == nf + cf);
    if path.len() == 0 {
        assert(p == a);
        let c = t.child(p, j);
        assert(p < t.children@[p]@[j] < t.nodes.len());
        let tf = tree_folds(t, src, c, t.kind(p));
        assert(tf == node_fold(t, src, c, t.kind(p)) + child_folds(t, src, c, 0));
        let k = choose|k: int| 0 <= k < node_fold(t, src, c, t.kind(p)).len() && node_fold(t, src, c, t.kind(p))[k] == x;
        assert(tf[k] == x);
        lemma_child_folds_contains(t, src, a, 0, j, x);
    } else {
        let b = t.child(a, path[0]);
        assert(a < t.children@[a]@[path[0]] < t.nodes.len());
        lemma_subtree_holds_child_fold(t, src, b, t.kind(a), path.drop_first(), p, j, x);
        lemma_child_folds_contains(t, src, a, 0, path[0], x);
    }
    let k = choose|k: int| 0 <= k < cf.len() && cf[k] == x;
    assert((nf + cf)[nf.len() + k] == x);
}

/// A fold of a node reached from the root is among the file's folding
/// ranges.
proof fn lemma_child_fold_in_result(
    t: SyntaxTree,
    src: Seq<u8>,
    text: Seq<char>,
    path: Seq<int>,
    p: int,
    j: int,
    x: FoldView,
)
    requires
        t.wf(),
        t.nodes.len() >= 1,
        node_at(t, 0, path) == Some(p),
        0 <= j < t.child_count(p),
        node_fold(t, src, t.child(p, j), t.kind(p)).contains(x),
    ensures
        sort_by_start(all_folds(t, src, text)).contains(x),
{
    lemma_subtree_holds_child_fold(t, src, 0, Seq::empty(), path, p, j, x);
    let tf = tree_folds(t, src, 0, Seq::empty());
    let rest = import_folds_from(lines(text), 0) + pragma_folds_from(lines(text), 0) + nonnull_folds_from(
        lines(text),
        0,
        seq![],
    );
    let all = all_folds(t, src, text);
    assert(all == tf + rest);
    let i = choose|i: int| 0 <= i < tf.len() && tf[i] == x;
    assert(all[i] == x);
    lemma_sort_by_start(all);
    broadcast use vstd::seq_lib::group_to_multiset_ensures;

    assert(all.contains(x));
    assert(sort_by_start(all).to_multiset().count(x) > 0);
}

/// A brace block that is not a method or function body can be folded:
/// for every multi-line `compound_statement` node reached from the root
/// whose parent is not a `method_definition` or `function_definition`, the
/// folding ranges of the file (those `folding_ranges_of` returns, in
/// order) hold a `Region` fold from its start row to its end row.
pub proof fn lemma_inner_block_folds(
    t: SyntaxTree,
    src: Seq<u8>,
    text: Seq<char>,
    path: Seq<int>,
    p: int,
    j: int,
)
    requires
        t.wf(),
        t.nodes.len() >= 1,
        node_at(t, 0, path) == Some(p),
        0 <= j < t.child_count(p),
        t.kind(t.child(p, j)) == "compound_statement"@,
        t.kind(p) != "method_definition"@,
        t.kind(p) != "function_definition"@,
        t.span(t.child(p, j)).start_row < t.span(t.child(p, j)).end_row < 0x1_0000_0000,
    ensures
        sort_by_start(all_folds(t, src, text)).contains(
            FoldView {
                start_line: t.span(t.child(p, j)).start_row as u32,
                end_line: t.span(t.child(p, j)).end_row as u32,
                kind: Some(FoldingRangeKind::Region),
                collapsed_text: None,
            },
        ),
{
    reveal_strlit("compound_statement");
    reveal_strlit("class_interface");
    reveal_strlit("class_implementation");
    reveal_strlit("protocol_declaration");
    reveal_strlit("category_interface");
    reveal_strlit("category_implementation");
    reveal_strlit("method_definition");
    reveal_strlit("function_definition");
    let c = t.child(p, j);
    let k = t.kind(c);
    assert(!is_block_kind(k)) by {
        assert(k.len() == 18);
        assert(k != "category_interface"@) by {
            assert(k[1] != "category_interface"@[1]);
        }
    }
    assert(!is_body_kind(k)) by {
        assert(k.len() == 18);
        assert("method_definition"@.len() == 17);
        assert("function_definition"@.len() == 19);
    }
    let sp = t.span(c);
    let x = FoldView {
        start_line: sp.start_row as u32,
        end_line: sp.end_row as u32,
        kind: Some(FoldingRangeKind::Region),
        collapsed_text: None,
    };
    assert(node_fold(t, src, c, t.kind(p)) == seq![x]);
    assert(seq![x][0] == x);
    lemma_child_fold_in_result(t, src, text, path, p, j, x);
}

/// A method or function body can be folded: every multi-line
/// `method_definition` or `function_definition` node reached from the root
/// gives the file a `Region` fold from its start row to its end row.
pub proof fn lemma_body_folds(t: SyntaxTree, src: Seq<u8>, text: Seq<char>, path: Seq<int>, p: int, j: int)
    requires
        t.wf(),
        t.nodes.len() >= 1,
        node_at(t, 0, path) == Some(p),
        0 <= j < t.child_count(p),
        t.kind(t.child(p, j)) == "method_definition"@ || t.kind(t.child(p, j)) == "function_definition"@,
        t.span(t.child(p, j)).start_row < t.span(t.child(p, j)).end_row < 0x1_0000_0000,
    ensures
        sort_by_start(all_folds(t, src, text)).contains(
            FoldView {
                start_line: t.span(t.child(p, j)).start_row as u32,
                end_line: t.span(t.child(p, j)).end_row as u32,
                kind: Some(FoldingRangeKind::Region),
                collapsed_text: None,
            },
        ),
{
    reveal_strlit("class_interface");
    reveal_strlit("class_implementation");
    reveal_strlit("protocol_declaration");
    reveal_strlit("category_interface");
    reveal_strlit("category_implementation");
    reveal_strlit("method_definition");
    reveal_strlit("function_definition");
    let c = t.child(p, j);
    let k = t.kind(c);
    assert(!is_block_kind(k)) by {
        assert(k.len() == 17 || k.len() == 19);
    }
    let sp = t.span(c);
    let x = FoldView {
        start_line: sp.start_row as u32,
        end_line: sp.end_row as u32,
        kind: Some(FoldingRangeKind::Region),
        collapsed_text: None,
    };
    assert(node_fold(t, src, c, t.kind(p)) == seq![x]);
    assert(seq![x][0] == x);
    lemma_child_fold_in_result(t, src, text, path, p, j, x);
}

/// A declaration block can be folded: every multi-line `@interface`
/// (`class_interface`) or `@implementation` (`class_implementation`) node
/// reached from the root gives the file a `Region` fold from its start
/// row to its end row, shown folded as `@interface...` or
/// `@implementation...`.
pub proof fn lemma_class_block_folds(t: SyntaxTree, src: Seq<u8>, text: Seq<char>, path: Seq<int>, p: int, j: int)
    requires
        t.wf(),
        t.nodes.len() >= 1,
        node_at(t, 0, path) == Some(p),
        0 <= j < t.child_count(p),
        t.kind(t.child(p, j)) == "class_interface"@ || t.kind(t.child(p, j)) == "class_implementation"@,
        t.span(t.child(p, j)).start_row < t.span(t.child(p, j)).end_row < 0x1_0000_0000,
    ensures
        sort_by_start(all_folds(t, src, text)).contains(
            FoldView {
                start_line: t.span(t.child(p, j)).start_row as u32,
                end_line: t.span(t.child(p, j)).end_row as u32,
                kind: Some(FoldingRangeKind::Region),
                collapsed_text: Some(
                    if t.kind(t.child(p, j)) == "class_interface"@ {
                        "@interface..."@
                    } else {
                        "@implementation..."@
                    },
                ),
            },
        ),
{
    reveal_strlit("class_interface");
    reveal_strlit("class_implementation");
    reveal_strlit("@interface");
    reveal_strlit("@implementation");
    reveal_strlit("...");
    reveal_strlit("@interface...");
    reveal_strlit("@implementation...");
    let c = t.child(p, j);
    let k = t.kind(c);
    let sp = t.span(c);
    let label = if k == "class_interface"@ {
        "@interface..."@
    } else {
        "@implementation..."@
    };
    assert(display_name(k) + "..."@ =~= label);
    let x = FoldView {
        start_line: sp.start_row as u32,
        end_line: sp.end_row as u32,
        kind: Some(FoldingRangeKind::Region),
        collapsed_text: Some(label),
    };
    assert(node_fold(t, src, c, t.kind(p)) == seq![x]);
    assert(seq![x][0] == x);
    lemma_child_fold_in_result(t, src, text, path, p, j, x);
}

} // verus!
