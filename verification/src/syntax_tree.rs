//! A syntax tree as plain values.
//!
//! Node `0` is the root.  Each node records its grammar kind, the field
//! name it has in its parent, its span, and the indices of its children in
//! order.  Every child index is greater than its parent's index, so a
//! walk from any node down its children ends.

use vstd::prelude::*;
use vstd::string::StringSliceAdditionalSpecFns;
use vstd::utf8::is_char_boundary;

use crate::text::str_eq;

verus! {

/// Where a node lies: bytes `start_byte..end_byte` of the source, from
/// (`start_row`, `start_col`) to (`end_row`, `end_col`), columns counted
/// in bytes.
#[derive(Debug, Clone, Copy, PartialEq, Eq, Structural)]
pub struct NodeSpan {
    pub start_byte: usize,
    pub end_byte: usize,
    pub start_row: usize,
    pub start_col: usize,
    pub end_row: usize,
    pub end_col: usize,
}

/// One node: its kind, the field name it has in its parent, its span.
#[derive(Debug, Clone)]
pub struct SyntaxNode {
    pub kind: String,
    pub field: Option<String>,
    pub span: NodeSpan,
}

/// A whole tree: `nodes[i]` has the children `children[i]`.
#[derive(Debug, Clone)]
pub struct SyntaxTree {
    pub nodes: Vec<SyntaxNode>,
    pub children: Vec<Vec<usize>>,
}

impl SyntaxTree {
    /// One child list per node; every child lies after its parent.
    pub open spec fn wf(&self) -> bool {
        &&& self.nodes.len() == self.children.len()
        &&& forall|i: int, j: int|
            0 <= i < self.children.len() && 0 <= j < self.children@[i].len() ==> i
                < #[trigger] self.children@[i]@[j] < self.nodes.len()
    }

    /// The kind of node `i`.
    pub open spec fn kind(&self, i: int) -> Seq<char> {
        self.nodes@[i].kind@
    }

    /// The span of node `i`.
    pub open spec fn span(&self, i: int) -> NodeSpan {
        self.nodes@[i].span
    }

    /// The `j`-th child of node `i`.
    pub open spec fn child(&self, i: int, j: int) -> int {
        self.children@[i]@[j] as int
    }

    /// The number of children of node `i`.
    pub open spec fn child_count(&self, i: int) -> int {
        self.children@[i].len() as int
    }

    /// The measure that a walk down from node `i` decreases.
    pub open spec fn depth_left(&self, i: int) -> nat {
        (self.nodes.len() - i) as nat
    }

    /// The first child of `i` whose field name is `name`.
    pub open spec fn field_child(&self, i: int, name: Seq<char>) -> Option<int> {
        self.field_child_from(i, name, 0)
    }

    pub open spec fn field_child_from(&self, i: int, name: Seq<char>, j: int) -> Option<int>
        decreases self.child_count(i) - j,
    {
        if j < 0 || j >= self.child_count(i) {
            None
        } else if self.nodes@[self.child(i, j)].field matches Some(f) && f@ == name {
            Some(self.child(i, j))
        } else {
            self.field_child_from(i, name, j + 1)
        }
    }
}

impl SyntaxTree {
    /// The index of the first child of node `i` whose field name is `name`.
    pub fn child_by_field(&self, i: usize, name: &str) -> (r: Option<usize>)
        requires
            self.wf(),
            i < self.nodes.len(),
        ensures
            match r {
                Some(c) => self.field_child(i as int, name@) == Some(c as int),
                None => self.field_child(i as int, name@) is None,
            },
            r matches Some(c) ==> i < c < self.nodes.len(),
    {
        let kids = &self.children[i];
        let mut j: usize = 0;
        while j < kids.len()
            invariant
                self.wf(),
                i < self.nodes.len(),
                kids@ == self.children@[i as int]@,
                j <= kids.len(),
                self.field_child(i as int, name@) == self.field_child_from(i as int, name@, j as int),
            decreases kids.len() - j,
        {
            let c = kids[j];
            assert(self.child(i as int, j as int) == c);
            let hit = match &self.nodes[c].field {
                Some(f) => str_eq(f.as_str(), name),
                None => false,
            };
            if hit {
                return Some(c);
            }
            j = j + 1;
        }
        None
    }
}

/// Whether both ends of a span fall on character boundaries of the
/// source, the start first.
pub open spec fn span_text_ok(src: Seq<u8>, sp: NodeSpan) -> bool {
    let a = sp.start_byte as int;
    let b = sp.end_byte as int;
    a <= b && is_char_boundary(src, a) && is_char_boundary(src.skip(a), b - a)
}

/// The bytes of the source that a node spans, when both ends of the span
/// fall on character boundaries; no bytes otherwise.
pub open spec fn node_bytes(src: Seq<u8>, sp: NodeSpan) -> Seq<u8> {
    if span_text_ok(src, sp) {
        src.subrange(sp.start_byte as int, sp.end_byte as int)
    } else {
        Seq::empty()
    }
}

/// The text of a node, `None` when its span does not fall on character
/// boundaries.
pub fn node_text_checked<'a>(src: &'a str, sp: NodeSpan) -> (r: Option<&'a str>)
    ensures
        match r {
            Some(t) => span_text_ok(src.spec_bytes(), sp) && t.spec_bytes() == node_bytes(src.spec_bytes(), sp),
            None => !span_text_ok(src.spec_bytes(), sp),
        },
{
    if sp.start_byte <= sp.end_byte && src.is_char_boundary(sp.start_byte) {
        let (_, tail) = src.split_at(sp.start_byte);
        let len = sp.end_byte - sp.start_byte;
        assert(tail.spec_bytes() =~= src.spec_bytes().skip(sp.start_byte as int));
        if tail.is_char_boundary(len) {
            let (t, _) = tail.split_at(len);
            proof {
                vstd::utf8::encode_utf8_valid_utf8(src@);
                vstd::utf8::valid_utf8_split(src.spec_bytes(), sp.start_byte as int);
                assert(src.spec_bytes().subrange(sp.start_byte as int, src.spec_bytes().len() as int)
                    =~= src.spec_bytes().skip(sp.start_byte as int));
                assert(len <= tail.spec_bytes().len());
                assert(src.spec_bytes().skip(sp.start_byte as int).take(len as int) =~= src.spec_bytes().subrange(
                    sp.start_byte as int,
                    sp.end_byte as int,
                ));
            }
            return Some(t);
        }
    }
    None
}

/// The text of a node (`Node::utf8_text`): the bytes `node_bytes`, no
/// text when the span does not fall on character boundaries.
pub fn node_text<'a>(src: &'a str, sp: NodeSpan) -> (r: &'a str)
    ensures
        r.spec_bytes() == node_bytes(src.spec_bytes(), sp),
{
    match node_text_checked(src, sp) {
        Some(t) => t,
        None => {
            let e = "";
            proof {
                reveal_strlit("");
                assert(e@ =~= Seq::<char>::empty());
                assert(e.spec_bytes() =~= Seq::<u8>::empty());
            }
            e
        },
    }
}


} // verus!
