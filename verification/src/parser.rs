//! Error-tolerant Objective-C parsing with tree-sitter.
//!
//! The parser and its trees belong to `tree_sitter`; each call into it
//! sits behind a small wrapper.  A parsed file is read once into a
//! [`SyntaxTree`], a plain arena of nodes (kind, field name, byte and
//! row/column span, children), on which the rest of the syntax layer
//! works and is verified.

use vstd::prelude::*;

use crate::syntax_tree::{NodeSpan, SyntaxNode, SyntaxTree};
use vstd::pervasive::VecAdditionalExecFns;
use crate::text::to_owned_string;

verus! {

#[verifier::external_type_specification]
#[verifier::external_body]
pub struct ExParser(tree_sitter::Parser);

#[verifier::external_type_specification]
#[verifier::external_body]
pub struct ExTree(tree_sitter::Tree);

#[verifier::external_type_specification]
#[verifier::external_body]
pub struct ExNode<'a>(tree_sitter::Node<'a>);

/// `Parser::new`.
#[verifier::external_body]
fn ts_parser_new() -> tree_sitter::Parser {
    tree_sitter::Parser::new()
}

/// `Parser::set_language` with the Objective-C grammar of
/// `tree_sitter_objc`; `true` when the grammar's ABI version is accepted.
/// `set_language` accepts the versions `MIN_COMPATIBLE_LANGUAGE_VERSION`
/// (13) to `LANGUAGE_VERSION` (15) of `tree_sitter`, and the grammar's
/// `parser.c` is generated with ABI version 14, so it is accepted.
#[verifier::external_body]
fn ts_set_objc_language(p: &mut tree_sitter::Parser) -> (accepted: bool)
    ensures
        accepted,
{
    p.set_language(&tree_sitter_objc::LANGUAGE.into()).is_ok()
}

/// `Parser::parse` from scratch on the parser of an [`ObjcParser`].  `parse` gives
/// `None` only for a parser without a language, or when a timeout or a
/// cancellation flag (both deprecated) stopped it.  The parser inside an
/// `ObjcParser` was given the Objective-C grammar by `ObjcParser::new`,
/// its only constructor, and is never given a timeout or a cancellation
/// flag, so a tree always comes back.
#[verifier::external_body]
fn ts_parse(p: &mut ObjcParser, text: &str) -> (r: Option<tree_sitter::Tree>)
    ensures
        r is Some,
{
    p.inner.parse(text, None)
}

/// The number of nodes of the tree that the Objective-C grammar gives
/// `source` (`Node::descendant_count` of its root, which counts the root).
/// A tree-sitter parse from scratch depends on the grammar and the text
/// alone.
pub uninterp spec fn objc_node_count(source: Seq<char>) -> usize;

/// The node at preorder index `i` of that tree (`0` is the root): its
/// kind, the field name under which it stands in its parent, its span, and
/// its depth below the root.
pub uninterp spec fn objc_node(source: Seq<char>, i: usize) -> (Seq<char>, Option<Seq<char>>, NodeSpan, u32);

/// `Node::descendant_count` of the root of the file's tree.  A
/// `ParsedFile` only comes from a parse of its own source from scratch
/// (see `ObjcParser`), and the count includes the root itself.
#[verifier::external_body]
fn ts_node_count(file: &ParsedFile) -> (n: usize)
    ensures
        n == objc_node_count(file.source@),
        n >= 1,
{
    file.tree.root_node().descendant_count()
}

/// `TreeCursor::goto_descendant` from the root of the file's tree, then
/// the kind (`Node::kind`), field name (`TreeCursor::field_name`), span and
/// depth (`TreeCursor::depth`) of the node reached.
#[verifier::external_body]
fn ts_node_at(file: &ParsedFile, i: usize) -> (r: (String, Option<String>, NodeSpan, u32))
    requires
        i < objc_node_count(file.source@),
    ensures
        r.0@ == objc_node(file.source@, i).0,
        opt_string_view(r.1) == objc_node(file.source@, i).1,
        r.2 == objc_node(file.source@, i).2,
        r.3 == objc_node(file.source@, i).3,
{
    let mut c = file.tree.walk();
    c.goto_descendant(i);
    let n = c.node();
    (n.kind().to_string(), c.field_name().map(|f| f.to_string()), ts_span(n), c.depth())
}

pub open spec fn opt_string_view(s: Option<String>) -> Option<Seq<char>> {
    match s {
        Some(t) => Some(t@),
        None => None,
    }
}

/// `Node::start_byte`, `Node::end_byte`, `Node::start_position` and
/// `Node::end_position`, as plain numbers.
#[verifier::external_body]
pub(crate) fn ts_span(n: tree_sitter::Node) -> NodeSpan {
    let (s, e) = (n.start_position(), n.end_position());
    NodeSpan {
        start_byte: n.start_byte(),
        end_byte: n.end_byte(),
        start_row: s.row,
        start_col: s.column,
        end_row: e.row,
        end_col: e.column,
    }
}

/// Why no tree could be had.
#[derive(Debug, Clone, Copy, PartialEq, Eq, Structural)]
pub enum ParseError {
    /// The Objective-C grammar was not accepted by the parser.
    GrammarUnavailable,
    /// The parser returned no tree.
    ParseFailed,
}

/// A parsed snapshot of a single source file: the source and the tree
/// that the Objective-C grammar gives it.  Both are private, so that the
/// tree is always the one parsed from the source held beside it.
pub struct ParsedFile {
    source: String,
    tree: tree_sitter::Tree,
}

/// The plain view of a node: kind, field name, span.
pub open spec fn node_view(n: SyntaxNode) -> (Seq<char>, Option<Seq<char>>, NodeSpan) {
    (n.kind@, opt_string_view(n.field), n.span)
}

/// The nodes of the tree of `source`, in preorder, as plain views.
pub open spec fn objc_nodes(source: Seq<char>) -> Seq<(Seq<char>, Option<Seq<char>>, NodeSpan)> {
    Seq::new(
        objc_node_count(source) as nat,
        |k: int| (objc_node(source, k as usize).0, objc_node(source, k as usize).1, objc_node(source, k as usize).2),
    )
}

/// The depths of the nodes of the tree of `source`, in preorder.
pub open spec fn objc_depths(source: Seq<char>) -> Seq<u32> {
    Seq::new(objc_node_count(source) as nat, |k: int| objc_node(source, k as usize).3)
}

/// One step of rebuilding the child lists from the preorder: node `i` at
/// `depth` becomes the last child of the node on the ancestor stack at
/// `depth - 1` (the stack holds, for each depth, the last node seen at
/// it); then it tops the stack.
pub open spec fn shape_step(st: (Seq<Seq<usize>>, Seq<usize>), i: usize, depth: u32) -> (Seq<Seq<usize>>, Seq<usize>) {
    let (ch, stack) = st;
    if i == 0 || stack.len() == 0 {
        (ch.push(seq![]), seq![i])
    } else {
        let keep: int = if depth < 1 {
            1
        } else if depth as int <= stack.len() {
            depth as int
        } else {
            stack.len() as int
        };
        let st2 = stack.take(keep);
        let p = st2.last() as int;
        (ch.update(p, ch[p].push(i)).push(seq![]), st2.push(i))
    }
}

/// The child lists of the nodes with the depths `depths`, in preorder.
pub open spec fn shape(depths: Seq<u32>) -> (Seq<Seq<usize>>, Seq<usize>)
    decreases depths.len(),
{
    if depths.len() == 0 {
        (seq![], seq![])
    } else {
        shape_step(shape(depths.drop_last()), (depths.len() - 1) as usize, depths.last())
    }
}

/// `t` is the tree of `source`, read into plain values.
pub open spec fn is_tree_of(t: SyntaxTree, source: Seq<char>) -> bool {
    &&& t.nodes@.map_values(|n: SyntaxNode| node_view(n)) == objc_nodes(source)
    &&& t.children@.map_values(|c: Vec<usize>| c@) == shape(objc_depths(source)).0
}

impl ParsedFile {
    /// The source text, as a sequence of characters.
    pub closed spec fn text(&self) -> Seq<char> {
        self.source@
    }

    /// The source text.
    pub fn source(&self) -> (s: &str)
        ensures
            s@ == self.text(),
    {
        self.source.as_str()
    }

    /// The source as bytes.
    pub fn source_bytes(&self) -> (b: &[u8])
        ensures
            b@ == vstd::utf8::encode_utf8(self.text()),
    {
        self.source.as_str().as_bytes()
    }

    /// The tree read into plain values: the tree of this file's source.
    pub fn syntax(&self) -> (t: SyntaxTree)
        ensures
            t.wf(),
            t.nodes.len() >= 1,
            is_tree_of(t, self.text()),
    {
        snapshot(self)
    }
}

#[verifier::external_type_specification]
#[verifier::external_body]
pub struct ExQuery(tree_sitter::Query);

/// Whether `Query::new` accepts the query `source` for the Objective-C
/// grammar.  It depends on the query text and the (fixed) grammar alone.
pub uninterp spec fn objc_query_compiles(source: Seq<char>) -> bool;

/// The capture names (`Query::capture_names`) of the query `query` for
/// the Objective-C grammar; they depend on the query text alone.
pub uninterp spec fn objc_capture_names(query: Seq<char>) -> Seq<Seq<char>>;

/// The matches (`QueryCursor::matches` over the whole tree) of the query
/// `query` on the tree that the Objective-C grammar gives `source`, in the
/// order the cursor yields them, each as its captures (capture index,
/// node span).
pub uninterp spec fn objc_query_matches(query: Seq<char>, source: Seq<char>) -> Seq<Seq<(u32, NodeSpan)>>;

/// A query compiled for the Objective-C grammar, with its text.  Both are
/// private, so that the query is always the one compiled from the text.
pub struct ObjcQuery {
    text: String,
    query: tree_sitter::Query,
}

impl ObjcQuery {
    /// The text the query was compiled from.
    pub closed spec fn source_text(&self) -> Seq<char> {
        self.text@
    }
}

/// `Query::new` for the Objective-C grammar; `None` on a query error.
#[verifier::external_body]
pub(crate) fn ts_query_new(source: &str) -> (q: Option<ObjcQuery>)
    ensures
        q is Some <==> objc_query_compiles(source@),
        q matches Some(c) ==> c.source_text() == source@,
{
    let query = tree_sitter::Query::new(&tree_sitter_objc::LANGUAGE.into(), source).ok()?;
    Some(ObjcQuery { text: source.to_string(), query })
}

/// `Query::capture_names`, as owned strings.
#[verifier::external_body]
pub(crate) fn ts_capture_names(q: &ObjcQuery) -> (r: Vec<String>)
    ensures
        r@.map_values(|s: String| s@) == objc_capture_names(q.source_text()),
{
    q.query.capture_names().iter().map(|n| n.to_string()).collect()
}

/// `QueryCursor::matches` over the whole tree of `file`: for each match,
/// in the order the cursor yields them, its captures as (capture index,
/// node span, see `ts_span`).
#[verifier::external_body]
pub(crate) fn ts_query_matches(q: &ObjcQuery, file: &ParsedFile) -> (r: Vec<Vec<(u32, NodeSpan)>>)
    ensures
        r@.map_values(|m: Vec<(u32, NodeSpan)>| m@) == objc_query_matches(q.source_text(), file.text()),
{
    let mut cursor = tree_sitter::QueryCursor::new();
    let mut it = cursor.matches(&q.query, file.tree.root_node(), file.source.as_bytes());
    let mut out = Vec::new();
    while let Some(m) = streaming_iterator::StreamingIterator::next(&mut it) {
        out.push(m.captures.iter().map(|c| (c.index, ts_span(c.node))).collect());
    }
    out
}

/// A tree-sitter parser set up for Objective-C.
pub struct ObjcParser {
    inner: tree_sitter::Parser,
}

impl ObjcParser {
    /// A parser with the Objective-C grammar, which the parser library
    /// accepts.
    pub fn new() -> (r: Result<ObjcParser, ParseError>)
        ensures
            r is Ok,
    {
        let mut inner = ts_parser_new();
        if ts_set_objc_language(&mut inner) {
            Ok(ObjcParser { inner })
        } else {
            Err(ParseError::GrammarUnavailable)
        }
    }

    /// Parse a source string from scratch.  A tree always comes back (see
    /// `ts_parse`).
    pub fn parse(&mut self, source: &str) -> (r: Result<ParsedFile, ParseError>)
        ensures
            r matches Ok(f) && f.text() == source@,
    {
        let source = to_owned_string(source);
        match ts_parse(self, source.as_str()) {
            Some(tree) => Ok(ParsedFile { source, tree }),
            None => Err(ParseError::ParseFailed),
        }
    }

    /// Parse `new_source` and replace the file's source and tree.  The
    /// parse starts from scratch: tree-sitter reuses an old tree only when
    /// it was edited to match the new text, which is not known here, so the
    /// tree is always the one of `new_source`.  A tree always comes back
    /// (see `ts_parse`).
    pub fn reparse(&mut self, file: &mut ParsedFile, new_source: &str) -> (r: Result<(), ParseError>)
        ensures
            r is Ok,
            final(file).text() == new_source@,
    {
        let new_source = to_owned_string(new_source);
        match ts_parse(self, new_source.as_str()) {
            Some(tree) => {
                file.source = new_source;
                file.tree = tree;
                Ok(())
            },
            None => Err(ParseError::ParseFailed),
        }
    }
}

/// Read the tree of `file` into a [`SyntaxTree`], node by node in
/// preorder, rebuilding the child lists from the depths (see `shape`).
fn snapshot(file: &ParsedFile) -> (t: SyntaxTree)
    ensures
        t.wf(),
        t.nodes.len() >= 1,
        is_tree_of(t, file.source@),
{
    let ghost src = file.source@;
    let n = ts_node_count(file);
    let ghost depths = objc_depths(src);
    let ghost views = objc_nodes(src);
    let mut nodes: Vec<SyntaxNode> = Vec::new();
    let mut children: Vec<Vec<usize>> = Vec::new();
    let mut stack: Vec<usize> = Vec::new();
    let mut i: usize = 0;
    assert(depths.take(0) =~= Seq::<u32>::empty());
    while i < n
        invariant
            n == objc_node_count(src),
            src == file.source@,
            depths == objc_depths(src),
            views == objc_nodes(src),
            i <= n,
            nodes.len() == i,
            children.len() == i,
            forall|k: int| 0 <= k < i ==> node_view(#[trigger] nodes@[k]) == views[k],
            children@.map_values(|c: Vec<usize>| c@) == shape(depths.take(i as int)).0,
            stack@ == shape(depths.take(i as int)).1,
            i > 0 ==> stack.len() >= 1,
            forall|k: int| 0 <= k < stack.len() ==> #[trigger] stack@[k] < i,
            forall|a: int, b: int|
                0 <= a < children.len() && 0 <= b < children@[a].len() ==> a < #[trigger] children@[a]@[b] < i,
        decreases n - i,
    {
        let (kind, field, span, depth) = ts_node_at(file, i);
        let ghost prev = shape(depths.take(i as int));
        assert(depths.take(i + 1).drop_last() =~= depths.take(i as int));
        assert(depths[i as int] == depth);
        let ghost next = shape_step(prev, i, depth);
        assert(shape(depths.take(i + 1)) == next);
        let ghost ch0 = children@;
        if i == 0 || stack.len() == 0 {
            children.push(Vec::new());
            stack = Vec::new();
            stack.push(i);
            assert(children@.map_values(|c: Vec<usize>| c@) =~= prev.0.push(seq![]));
            assert(stack@ =~= seq![i]);
        } else {
            let keep: usize = if depth < 1 {
                1
            } else if (depth as usize) <= stack.len() {
                depth as usize
            } else {
                stack.len()
            };
            stack.truncate(keep);
            assert(stack@ =~= prev.1.take(keep as int));
            let p = stack[keep - 1];
            let mut kids: Vec<usize> = Vec::new();
            children.set_and_swap(p, &mut kids);
            kids.push(i);
            children.set_and_swap(p, &mut kids);
            children.push(Vec::new());
            stack.push(i);
            assert(children@.map_values(|c: Vec<usize>| c@) =~= prev.0.update(p as int, prev.0[p as int].push(i)).push(
                seq![],
            )) by {
                assert forall|a: int| 0 <= a < children.len() implies (#[trigger] children@[a])@ == prev.0.update(
                    p as int,
                    prev.0[p as int].push(i),
                ).push(seq![])[a] by {
                    if a < i && a != p {
                        assert(children@[a] == ch0[a]);
                    }
                }
            }
            assert forall|a: int, b: int|
                0 <= a < children.len() && 0 <= b < children@[a].len() implies a < #[trigger] children@[a]@[b]
                    < i + 1 by {
                if a == p {
                    if b < ch0[a].len() {
                        assert(children@[a]@[b] == ch0[a]@[b]);
                    }
                } else if a < i {
                    assert(children@[a] == ch0[a]);
                }
            }
        }
        nodes.push(SyntaxNode { kind, field, span });
        i = i + 1;
    }
    assert(depths.take(n as int) =~= depths);
    assert(nodes@.map_values(|nd: SyntaxNode| node_view(nd)) =~= views);
    SyntaxTree { nodes, children }
}

} // verus!
