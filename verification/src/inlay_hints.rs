//! Inlay hints for Objective-C message send argument labels.
//!
//! Every `message_expression` is read as the flat sequence of its
//! children, `'[' receiver (identifier ':' expression)+ ']'`, and each
//! `keyword:` label is shown right before the argument that follows it.
//!
//! Example: `[obj initWithName:name age:42]` gets `initWithName:` before
//! `name` and `age:` before `42`.

use vstd::prelude::*;
use vstd::string::StringSliceAdditionalSpecFns;
use vstd::utf8::decode_utf8;

use crate::lsp::{Position, Range};
use crate::parser::{is_tree_of, ParsedFile};
use crate::syntax_tree::{node_bytes, node_text, SyntaxTree};
use crate::text::{str_eq, to_owned_string};

verus! {

/// A parameter-label hint shown at `position`.
#[derive(Debug, Clone)]
pub struct InlayHint {
    pub position: Position,
    pub label: String,
    /// No space before the label.
    pub padding_left: bool,
    /// A space after the label.
    pub padding_right: bool,
}

/// A hint as plain values: where, what label, the padding before and
/// after it.
pub open spec fn hint_view(h: InlayHint) -> (Position, Seq<char>, bool, bool) {
    (h.position, h.label@, h.padding_left, h.padding_right)
}

pub open spec fn hint_views(v: Seq<InlayHint>) -> Seq<(Position, Seq<char>, bool, bool)> {
    v.map_values(|h: InlayHint| hint_view(h))
}

/// The hints of the keyword arguments among the children `j..` of the
/// message expression `i`: an `identifier` child followed by a `:` child
/// and a third child gives the label `identifier:` at the third child's
/// start, and the scan goes on after the third child.
pub open spec fn message_hints_from(t: SyntaxTree, src: Seq<u8>, i: int, j: int) -> Seq<(Position, Seq<char>, bool, bool)>
    decreases t.child_count(i) - j,
{
    if j < 0 || j >= t.child_count(i) {
        seq![]
    } else if t.kind(t.child(i, j)) == "identifier"@ && j + 2 < t.child_count(i) && t.kind(t.child(i, j + 1))
        == ":"@ {
        let kw = t.child(i, j);
        let arg = t.span(t.child(i, j + 2));
        seq![
            (
                Position { line: arg.start_row as u32, character: arg.start_col as u32 },
                decode_utf8(node_bytes(src, t.span(kw))) + ":"@,
                false,
                true,
            ),
        ] + message_hints_from(t, src, i, j + 3)
    } else {
        message_hints_from(t, src, i, j + 1)
    }
}

/// Whether node `i` lies wholly before or after the lines of `r`.
pub open spec fn outside_lines(t: SyntaxTree, i: int, r: Range) -> bool {
    t.span(i).end_row < r.start.line || t.span(i).start_row > r.end.line
}

/// The hints of the subtree under node `i`, in walk order; subtrees
/// wholly outside the lines of `range` are skipped.
pub open spec fn tree_hints(t: SyntaxTree, src: Seq<u8>, i: int, range: Option<Range>) -> Seq<(Position, Seq<char>, bool, bool)>
    decreases t.depth_left(i), t.child_count(i) + 1,
{
    if !(t.wf() && 0 <= i < t.nodes.len()) {
        seq![]
    } else if range matches Some(r) && outside_lines(t, i, r) {
        seq![]
    } else {
        (if t.kind(i) == "message_expression"@ {
            message_hints_from(t, src, i, 2)
        } else {
            seq![]
        }) + child_hints(t, src, i, 0, range)
    }
}

/// The hints of the subtrees under the children `j..` of node `i`.
pub open spec fn child_hints(t: SyntaxTree, src: Seq<u8>, i: int, j: int, range: Option<Range>) -> Seq<(Position, Seq<char>, bool, bool)>
    decreases t.depth_left(i), t.child_count(i) - j,
{
    if t.wf() && 0 <= i < t.nodes.len() && 0 <= j < t.child_count(i) {
        let c = t.child(i, j);
        proof {
            assert(i < t.children@[i]@[j] < t.nodes.len());
        }
        tree_hints(t, src, c, range) + child_hints(t, src, i, j + 1, range)
    } else {
        seq![]
    }
}

proof fn lemma_hint_views_push(v: Seq<InlayHint>, h: InlayHint)
    ensures
        hint_views(v.push(h)) == hint_views(v).push(hint_view(h)),
{
    assert(hint_views(v.push(h)) =~= hint_views(v).push(hint_view(h)));
}

/// Add the `keyword:` hints of the message expression `i`.
fn extract_message_hints(t: &SyntaxTree, src: &str, i: usize, out: &mut Vec<InlayHint>)
    requires
        t.wf(),
        i < t.nodes.len(),
    ensures
        hint_views(final(out)@) == hint_views(old(out)@) + message_hints_from(*t, src.spec_bytes(), i as int, 2),
{
    let ghost sb = src.spec_bytes();
    let ghost start = hint_views(out@);
    let kids = &t.children[i];
    let n = kids.len();
    let mut j: usize = 2;
    while j < n
        invariant
            t.wf(),
            i < t.nodes.len(),
            kids@ == t.children@[i as int]@,
            n == kids.len(),
            sb == src.spec_bytes(),
            hint_views(out@) + message_hints_from(*t, sb, i as int, j as int) == start + message_hints_from(
                *t,
                sb,
                i as int,
                2,
            ),
        decreases n - j,
    {
        let c = kids[j];
        assert(t.child(i as int, j as int) == c);
        assert(c < t.nodes.len());
        if str_eq(t.nodes[c].kind.as_str(), "identifier") && 2 < n - j {
            let colon = kids[j + 1];
            assert(t.child(i as int, j + 1) == colon);
            assert(colon < t.nodes.len());
            if str_eq(t.nodes[colon].kind.as_str(), ":") {
                let arg = kids[j + 2];
                assert(t.child(i as int, j + 2) == arg);
                assert(arg < t.nodes.len());
                let kw = node_text(src, t.nodes[c].span);
                proof {
                    vstd::utf8::encode_utf8_decode_utf8(kw@);
                }
                let mut label = to_owned_string(kw);
                label.append(":");
                let sp = t.nodes[arg].span;
                let h = InlayHint {
                    position: Position { line: sp.start_row as u32, character: sp.start_col as u32 },
                    label,
                    padding_left: false,
                    padding_right: true,
                };
                proof {
                    lemma_hint_views_push(out@, h);
                }
                out.push(h);
                j = j + 3;
                continue;
            }
        }
        j = j + 1;
    }
}

/// Add the hints of the subtree under node `i`.
fn collect_hints(t: &SyntaxTree, src: &str, i: usize, range: Option<Range>, out: &mut Vec<InlayHint>)
    requires
        t.wf(),
        i < t.nodes.len(),
    ensures
        hint_views(final(out)@) == hint_views(old(out)@) + tree_hints(*t, src.spec_bytes(), i as int, range),
    decreases t.depth_left(i as int),
{
    let ghost sb = src.spec_bytes();
    let ghost start = hint_views(out@);
    let sp = t.nodes[i].span;
    if let Some(r) = range {
        if sp.end_row < r.start.line as usize || sp.start_row > r.end.line as usize {
            assert(hint_views(out@) =~= start + Seq::<(Position, Seq<char>, bool, bool)>::empty());
            return;
        }
    }
    if str_eq(t.nodes[i].kind.as_str(), "message_expression") {
        extract_message_hints(t, src, i, out);
    } else {
        assert(hint_views(out@) =~= start + Seq::<(Position, Seq<char>, bool, bool)>::empty());
    }
    let ghost own = hint_views(out@);
    let n = t.children[i].len();
    let mut j: usize = 0;
    while j < n
        invariant
            t.wf(),
            i < t.nodes.len(),
            n == t.child_count(i as int),
            j <= n,
            sb == src.spec_bytes(),
            hint_views(out@) + child_hints(*t, sb, i as int, j as int, range) == own + child_hints(
                *t,
                sb,
                i as int,
                0,
                range,
            ),
        decreases n - j,
    {
        let c = t.children[i][j];
        assert(t.child(i as int, j as int) == c);
        assert(i < c < t.nodes.len());
        let ghost before = hint_views(out@);
        collect_hints(t, src, c, range, out);
        assert(child_hints(*t, sb, i as int, j as int, range) == tree_hints(*t, sb, c as int, range) + child_hints(
            *t,
            sb,
            i as int,
            j + 1,
            range,
        ));
        assert(hint_views(out@) + child_hints(*t, sb, i as int, j + 1, range) == before + child_hints(
            *t,
            sb,
            i as int,
            j as int,
            range,
        ));
        j = j + 1;
    }
    assert(child_hints(*t, sb, i as int, n as int, range) == Seq::<(Position, Seq<char>, bool, bool)>::empty());
}

/// The inlay hints of `source` with syntax tree `t`, for the lines of
/// `range` (the whole file when `range` is `None`).
pub fn inlay_hints_of(t: &SyntaxTree, source: &str, range: Option<Range>) -> (r: Vec<InlayHint>)
    requires
        t.wf(),
        t.nodes.len() >= 1,
    ensures
        hint_views(r@) == tree_hints(*t, source.spec_bytes(), 0, range),
{
    let mut hints: Vec<InlayHint> = Vec::new();
    assert(hint_views(hints@) =~= Seq::<(Position, Seq<char>, bool, bool)>::empty());
    collect_hints(t, source, 0, range, &mut hints);
    assert(hint_views(hints@) =~= tree_hints(*t, source.spec_bytes(), 0, range));
    hints
}

/// Return inlay hints for all message-send argument labels inside
/// `range`; the whole file when `range` is `None`.
pub fn inlay_hints(file: &ParsedFile, range: Option<Range>) -> (r: Vec<InlayHint>)
    ensures
        exists|t: SyntaxTree|
            t.wf() && is_tree_of(t, file.text()) && #[trigger] tree_hints(t, vstd::utf8::encode_utf8(file.text()), 0, range) == hint_views(r@),
{
    let t = file.syntax();
    inlay_hints_of(&t, file.source(), range)
}

} // verus!
