//! Document symbols (the outline) of an Objective-C file.
//!
//! The declarations are found by a tree-sitter query; each match holds a
//! `*.def` capture (the whole declaration) and a `*.name` capture (its
//! name).  Turning matches into symbols is done, and verified, here.

use vstd::prelude::*;
use vstd::string::StringSliceAdditionalSpecFns;
use vstd::utf8::decode_utf8;

use crate::lsp::{Position, Range};
use crate::parser::{
    objc_capture_names, objc_query_compiles, objc_query_matches, ts_capture_names, ts_query_matches,
    ts_query_new, ParsedFile,
};
use crate::syntax_tree::{node_bytes, node_text_checked, span_text_ok, NodeSpan};
use crate::text::{ends_with, starts_with, str_ends_with, str_starts_with, to_owned_string};

verus! {

/// The tree-sitter query that captures the declarations of the outline.
pub const SYMBOLS_QUERY: &'static str = "
; @interface declarations
(class_interface
  \"@interface\" . (identifier) @class.name) @class.def

; @implementation blocks
(class_implementation
  \"@implementation\" . (identifier) @impl.name) @impl.def

; @protocol declarations
(protocol_declaration
  \"@protocol\" . (identifier) @protocol.name) @protocol.def

; Method declarations inside @interface / @protocol
(method_declaration
  (method_type) . (identifier) @method.name) @method.def

; Method definitions inside @implementation
(method_definition
  (method_type) . (identifier) @method_impl.name) @method_impl.def

; @property declarations
(property_declaration
  (struct_declaration
    (struct_declarator
      [(identifier) @prop.name
       (pointer_declarator declarator: (identifier) @prop.name)]))) @prop.def

; Category interfaces: @interface Foo (CategoryName)
(class_interface
  \"@interface\" . (identifier) @cat.class
  category: (identifier) @cat.name) @cat.def
";

#[derive(Debug, Clone, Copy, PartialEq, Eq, Structural)]
pub enum SymbolKind {
    Class,
    Interface,
    Method,
    Property,
    Module,
    Object,
    Function,
}

/// One entry of the outline.
#[derive(Debug)]
pub struct DocumentSymbol {
    pub name: String,
    pub detail: Option<String>,
    pub kind: SymbolKind,
    /// The whole declaration.
    pub range: Range,
    /// The name of the declaration.
    pub selection_range: Range,
    pub children: Option<Vec<DocumentSymbol>>,
}

/// The symbol kind that a capture name stands for.
pub open spec fn kind_of_capture(name: Seq<char>) -> SymbolKind {
    if starts_with(name, "class"@) || starts_with(name, "impl"@) {
        SymbolKind::Class
    } else if starts_with(name, "protocol"@) {
        SymbolKind::Interface
    } else if starts_with(name, "method"@) {
        SymbolKind::Method
    } else if starts_with(name, "prop"@) {
        SymbolKind::Property
    } else if starts_with(name, "cat"@) {
        SymbolKind::Module
    } else {
        SymbolKind::Object
    }
}

/// The symbol kind that a capture name stands for.
pub fn capture_name_to_symbol_kind(name: &str) -> (k: SymbolKind)
    ensures
        k == kind_of_capture(name@),
{
    if str_starts_with(name, "class") || str_starts_with(name, "impl") {
        SymbolKind::Class
    } else if str_starts_with(name, "protocol") {
        SymbolKind::Interface
    } else if str_starts_with(name, "method") {
        SymbolKind::Method
    } else if str_starts_with(name, "prop") {
        SymbolKind::Property
    } else if str_starts_with(name, "cat") {
        SymbolKind::Module
    } else {
        SymbolKind::Object
    }
}

pub open spec fn span_range(sp: NodeSpan) -> Range {
    Range {
        start: Position { line: sp.start_row as u32, character: sp.start_col as u32 },
        end: Position { line: sp.end_row as u32, character: sp.end_col as u32 },
    }
}

/// The range of a node.
pub fn node_to_range(sp: NodeSpan) -> (r: Range)
    ensures
        r == span_range(sp),
{
    Range {
        start: Position { line: sp.start_row as u32, character: sp.start_col as u32 },
        end: Position { line: sp.end_row as u32, character: sp.end_col as u32 },
    }
}

/// The name of capture `index`; nothing for an index with no name.
pub open spec fn capture_name(names: Seq<Seq<char>>, index: u32) -> Seq<char> {
    if index < names.len() {
        names[index as int]
    } else {
        Seq::empty()
    }
}

/// The first capture of `m` from `j` on whose name ends with `suffix`.
pub open spec fn find_capture(names: Seq<Seq<char>>, m: Seq<(u32, NodeSpan)>, suffix: Seq<char>, j: int) -> Option<(u32, NodeSpan)>
    decreases m.len() - j,
{
    if j < 0 || j >= m.len() {
        None
    } else if ends_with(capture_name(names, m[j].0), suffix) {
        Some(m[j])
    } else {
        find_capture(names, m, suffix, j + 1)
    }
}

/// A symbol as plain values: name, kind, range, selection range.
pub open spec fn symbol_view(s: DocumentSymbol) -> (Seq<char>, SymbolKind, Range, Range) {
    (s.name@, s.kind, s.range, s.selection_range)
}

pub open spec fn symbol_views(v: Seq<DocumentSymbol>) -> Seq<(Seq<char>, SymbolKind, Range, Range)> {
    v.map_values(|s: DocumentSymbol| symbol_view(s))
}

/// The symbol of one match: the `*.def` capture gives the kind and the
/// range, the `*.name` capture the name (`<?>` when its text cannot be
/// read) and the selection range; none when either capture is missing.
pub open spec fn match_symbol(names: Seq<Seq<char>>, m: Seq<(u32, NodeSpan)>, src: Seq<u8>) -> Seq<(Seq<char>, SymbolKind, Range, Range)> {
    match (find_capture(names, m, ".def"@, 0), find_capture(names, m, ".name"@, 0)) {
        (Some(def), Some(name)) => seq![
            (
                if span_text_ok(src, name.1) {
                    decode_utf8(node_bytes(src, name.1))
                } else {
                    "<?>"@
                },
                kind_of_capture(capture_name(names, def.0)),
                span_range(def.1),
                span_range(name.1),
            ),
        ],
        _ => seq![],
    }
}

/// The symbols of matches `i..`, in order.
pub open spec fn match_symbols(names: Seq<Seq<char>>, ms: Seq<Seq<(u32, NodeSpan)>>, src: Seq<u8>, i: int) -> Seq<(Seq<char>, SymbolKind, Range, Range)>
    decreases ms.len() - i,
{
    if i < 0 || i >= ms.len() {
        seq![]
    } else {
        match_symbol(names, ms[i], src) + match_symbols(names, ms, src, i + 1)
    }
}

fn find_capture_exec(names: &Vec<String>, m: &Vec<(u32, NodeSpan)>, suffix: &str) -> (r: Option<(u32, NodeSpan)>)
    ensures
        r == find_capture(names@.map_values(|s: String| s@), m@, suffix@, 0),
{
    let ghost ns = names@.map_values(|s: String| s@);
    let mut j: usize = 0;
    while j < m.len()
        invariant
            j <= m.len(),
            ns == names@.map_values(|s: String| s@),
            find_capture(ns, m@, suffix@, 0) == find_capture(ns, m@, suffix@, j as int),
        decreases m.len() - j,
    {
        let (idx, sp) = m[j];
        assert(ns.len() == names@.len());
        let hit = if (idx as usize) < names.len() {
            assert(ns[idx as int] == names@[idx as int]@);
            str_ends_with(names[idx as usize].as_str(), suffix)
        } else {
            proof {
                reveal_strlit("");
                assert(""@ =~= Seq::<char>::empty());
            }
            str_ends_with("", suffix)
        };
        assert(m@[j as int] == (idx, sp));
        assert(capture_name(ns, idx) == (if idx < ns.len() { ns[idx as int] } else { Seq::empty() }));
        assert(hit == ends_with(capture_name(ns, idx), suffix@));
        if hit {
            return Some((idx, sp));
        }
        j = j + 1;
    }
    None
}

/// The symbols of `src` from the matches `matches` of the symbols query,
/// whose captures are named `names`, not yet nested: one symbol per match
/// that has both a `*.def` and a `*.name` capture, in match order.
pub fn flat_symbols_of(names: &Vec<String>, matches: &Vec<Vec<(u32, NodeSpan)>>, src: &str) -> (r: Vec<DocumentSymbol>)
    ensures
        symbol_views(r@) == match_symbols(names@.map_values(|s: String| s@), matches@.map_values(|m: Vec<(u32, NodeSpan)>| m@), src.spec_bytes(), 0),
        forall|k: int| 0 <= k < r@.len() ==> (#[trigger] r@[k]).detail is None && r@[k].children is None,
{
    let ghost ns = names@.map_values(|s: String| s@);
    let ghost ms = matches@.map_values(|m: Vec<(u32, NodeSpan)>| m@);
    let ghost sb = src.spec_bytes();
    let mut out: Vec<DocumentSymbol> = Vec::new();
    let mut i: usize = 0;
    while i < matches.len()
        invariant
            i <= matches.len(),
            ns == names@.map_values(|s: String| s@),
            ms == matches@.map_values(|m: Vec<(u32, NodeSpan)>| m@),
            sb == src.spec_bytes(),
            symbol_views(out@) + match_symbols(ns, ms, sb, i as int) == match_symbols(ns, ms, sb, 0),
            forall|k: int| 0 <= k < out@.len() ==> (#[trigger] out@[k]).detail is None && out@[k].children is None,
        decreases matches.len() - i,
    {
        let m = &matches[i];
        assert(ms[i as int] == m@);
        assert(ns.len() == names@.len());
        let def = find_capture_exec(names, m, ".def");
        let name = find_capture_exec(names, m, ".name");
        assert(match_symbols(ns, ms, sb, i as int) == match_symbol(ns, m@, sb) + match_symbols(ns, ms, sb, i + 1));
        let ghost before = symbol_views(out@);
        if let (Some(d), Some(n)) = (def, name) {
            let text = match node_text_checked(src, n.1) {
                Some(t) => {
                    proof {
                        vstd::utf8::encode_utf8_decode_utf8(t@);
                    }
                    to_owned_string(t)
                },
                None => to_owned_string("<?>"),
            };
            let kind = if (d.0 as usize) < names.len() {
                assert(ns[d.0 as int] == names@[d.0 as int]@);
                let nm = names[d.0 as usize].as_str();
                assert(nm@ == capture_name(ns, d.0));
                capture_name_to_symbol_kind(nm)
            } else {
                proof {
                    reveal_strlit("");
                    assert(""@ =~= Seq::<char>::empty());
                }
                capture_name_to_symbol_kind("")
            };
            let sym = DocumentSymbol {
                name: text,
                detail: None,
                kind,
                range: node_to_range(d.1),
                selection_range: node_to_range(n.1),
                children: None,
            };
            assert(symbol_views(out@.push(sym)) =~= symbol_views(out@).push(symbol_view(sym)));
            assert(sym.name@ == (if span_text_ok(sb, n.1) { decode_utf8(node_bytes(sb, n.1)) } else { "<?>"@ }));
            assert(sym.kind == kind_of_capture(capture_name(ns, d.0)));
            assert(match_symbol(ns, m@, sb) == seq![symbol_view(sym)]);
            out.push(sym);
        } else {
            assert(match_symbol(ns, m@, sb) == Seq::<(Seq<char>, SymbolKind, Range, Range)>::empty());
        }
        i = i + 1;
    }
    out
}

/// Symbols that hold others in the outline: classes, implementations,
/// protocols and categories.
pub open spec fn is_container(k: SymbolKind) -> bool {
    k == SymbolKind::Class || k == SymbolKind::Interface || k == SymbolKind::Module
}

/// Symbols that belong to a container: methods and properties.
pub open spec fn is_member(k: SymbolKind) -> bool {
    k == SymbolKind::Method || k == SymbolKind::Property
}

pub open spec fn pos_le(a: Position, b: Position) -> bool {
    a.line < b.line || (a.line == b.line && a.character <= b.character)
}

/// `inner` lies inside `outer`.
pub open spec fn range_within(inner: Range, outer: Range) -> bool {
    pos_le(outer.start, inner.start) && pos_le(inner.end, outer.end)
}

/// One step of the nesting: a method or property that lies inside the
/// last top-level symbol, when that is a container, becomes its last
/// child; any other symbol becomes a new top-level symbol.
pub open spec fn nest_step(
    acc: Seq<((Seq<char>, SymbolKind, Range, Range), Seq<(Seq<char>, SymbolKind, Range, Range)>)>,
    s: (Seq<char>, SymbolKind, Range, Range),
) -> Seq<((Seq<char>, SymbolKind, Range, Range), Seq<(Seq<char>, SymbolKind, Range, Range)>)> {
    if is_member(s.1) && acc.len() > 0 && is_container(acc.last().0.1) && range_within(s.2, acc.last().0.2) {
        acc.update(acc.len() - 1, (acc.last().0, acc.last().1.push(s)))
    } else {
        acc.push((s, seq![]))
    }
}

/// The outline of a flat list of symbols: its top-level symbols, each
/// with its children.
pub open spec fn nest(flat: Seq<(Seq<char>, SymbolKind, Range, Range)>) -> Seq<
    ((Seq<char>, SymbolKind, Range, Range), Seq<(Seq<char>, SymbolKind, Range, Range)>),
>
    decreases flat.len(),
{
    if flat.len() == 0 {
        seq![]
    } else {
        nest_step(nest(flat.drop_last()), flat.last())
    }
}

pub open spec fn leaf_ok(c: DocumentSymbol) -> bool {
    c.detail is None && c.children is None
}

/// `d` is the top-level symbol `e` of the outline: a container carries its
/// children (possibly none), any other symbol none.
pub open spec fn outline_entry_ok(
    d: DocumentSymbol,
    e: ((Seq<char>, SymbolKind, Range, Range), Seq<(Seq<char>, SymbolKind, Range, Range)>),
) -> bool {
    &&& symbol_view(d) == e.0
    &&& d.detail is None
    &&& if is_container(d.kind) {
        d.children matches Some(c) && symbol_views(c@) == e.1 && forall|j: int|
            0 <= j < c.len() ==> leaf_ok(#[trigger] c@[j])
    } else {
        d.children is None && e.1.len() == 0
    }
}

pub open spec fn outline_ok(
    out: Seq<DocumentSymbol>,
    acc: Seq<((Seq<char>, SymbolKind, Range, Range), Seq<(Seq<char>, SymbolKind, Range, Range)>)>,
) -> bool {
    out.len() == acc.len() && forall|i: int| 0 <= i < out.len() ==> outline_entry_ok(#[trigger] out[i], acc[i])
}

fn is_container_exec(k: SymbolKind) -> (b: bool)
    ensures
        b == is_container(k),
{
    match k {
        SymbolKind::Class | SymbolKind::Interface | SymbolKind::Module => true,
        _ => false,
    }
}

fn pos_le_exec(a: Position, b: Position) -> (r: bool)
    ensures
        r == pos_le(a, b),
{
    a.line < b.line || (a.line == b.line && a.character <= b.character)
}

/// Puts `sym` into the outline `out` (see `nest_step`).
fn place(
    out: &mut Vec<DocumentSymbol>,
    sym: DocumentSymbol,
    Ghost(acc): Ghost<Seq<((Seq<char>, SymbolKind, Range, Range), Seq<(Seq<char>, SymbolKind, Range, Range)>)>>,
)
    requires
        leaf_ok(sym),
        outline_ok(old(out)@, acc),
    ensures
        outline_ok(final(out)@, nest_step(acc, symbol_view(sym))),
{
    let n = out.len();
    let member = match sym.kind {
        SymbolKind::Method | SymbolKind::Property => true,
        _ => false,
    };
    if member && n > 0 {
        let k = out[n - 1].kind;
        let r = out[n - 1].range;
        if is_container_exec(k) && pos_le_exec(r.start, sym.range.start) && pos_le_exec(sym.range.end, r.end) {
            let ghost before = out@;
            assert(outline_entry_ok(before[n - 1], acc[n - 1]));
            let mut last = out.pop().unwrap();
            assert(out@ =~= before.take(n - 1));
            let ghost sv = symbol_view(sym);
            let mut kids = match last.children {
                Some(c) => c,
                None => Vec::new(),
            };
            let ghost kids0 = kids@;
            kids.push(sym);
            assert(symbol_views(kids@) =~= symbol_views(kids0).push(sv));
            last.children = Some(kids);
            out.push(last);
            let ghost na = nest_step(acc, sv);
            assert(na == acc.update(n - 1, (acc[n - 1].0, acc[n - 1].1.push(sv))));
            assert forall|i: int| 0 <= i < out@.len() implies outline_entry_ok(#[trigger] out@[i], na[i]) by {
                if i < n - 1 {
                    assert(out@[i] == before[i]);
                }
            }
            return;
        }
    }
    let mut s = sym;
    if is_container_exec(s.kind) {
        s.children = Some(Vec::new());
        assert(symbol_views(Seq::<DocumentSymbol>::empty()) =~= Seq::<(Seq<char>, SymbolKind, Range, Range)>::empty());
    }
    let ghost before = out@;
    out.push(s);
    let ghost na = nest_step(acc, symbol_view(sym));
    assert forall|i: int| 0 <= i < out@.len() implies outline_entry_ok(#[trigger] out@[i], na[i]) by {
        if i < n {
            assert(out@[i] == before[i]);
        }
    }
}

/// The outline of `src` from the matches `matches` of the symbols query,
/// whose captures are named `names`: one symbol per match that has both a
/// `*.def` and a `*.name` capture, in match order (see
/// `flat_symbols_of`), with each method and property that lies inside a
/// class, implementation, protocol or category nested under it (see
/// `nest`).
pub fn document_symbols_of(names: &Vec<String>, matches: &Vec<Vec<(u32, NodeSpan)>>, src: &str) -> (r: Vec<DocumentSymbol>)
    ensures
        outline_ok(r@, nest(match_symbols(names@.map_values(|s: String| s@), matches@.map_values(|m: Vec<(u32, NodeSpan)>| m@), src.spec_bytes(), 0))),
{
    let mut flat = flat_symbols_of(names, matches, src);
    let ghost all = symbol_views(flat@);
    let mut out: Vec<DocumentSymbol> = Vec::new();
    let ghost mut k: int = 0;
    assert(all.take(0) =~= Seq::<(Seq<char>, SymbolKind, Range, Range)>::empty());
    assert(flat@ =~= flat@.skip(0));
    let ghost orig = flat@;
    while flat.len() > 0
        invariant
            0 <= k <= orig.len(),
            all == symbol_views(orig),
            flat@ == orig.skip(k),
            forall|j: int| 0 <= j < orig.len() ==> leaf_ok(#[trigger] orig[j]),
            outline_ok(out@, nest(all.take(k))),
        decreases flat.len(),
    {
        let sym = flat.remove(0);
        assert(sym == orig[k]);
        assert(flat@ =~= orig.skip(k + 1));
        assert(all.take(k + 1).drop_last() =~= all.take(k));
        assert(all.take(k + 1).last() == symbol_view(sym));
        place(&mut out, sym, Ghost(nest(all.take(k))));
        proof {
            k = k + 1;
        }
    }
    assert(all.take(k) =~= all);
    out
}

/// Why no outline could be made.
#[derive(Debug, Clone, Copy, PartialEq, Eq, Structural)]
pub enum SymbolsError {
    /// The symbols query was refused by the grammar.
    BadQuery,
}

/// Extract the document symbols of the parsed file, in match order of
/// the symbols query, with methods and properties nested under their
/// class, implementation, protocol or category (see
/// `document_symbols_of`): an error exactly when the grammar refuses the
/// query.
pub fn document_symbols(file: &ParsedFile) -> (r: Result<Vec<DocumentSymbol>, SymbolsError>)
    ensures
        r is Ok <==> objc_query_compiles(SYMBOLS_QUERY@),
        match r {
            Ok(syms) => outline_ok(
                syms@,
                nest(
                    match_symbols(
                        objc_capture_names(SYMBOLS_QUERY@),
                        objc_query_matches(SYMBOLS_QUERY@, file.text()),
                        vstd::utf8::encode_utf8(file.text()),
                        0,
                    ),
                ),
            ),
            Err(e) => e == SymbolsError::BadQuery,
        },
{
    let q = match ts_query_new(SYMBOLS_QUERY) {
        Some(q) => q,
        None => {
            return Err(SymbolsError::BadQuery);
        },
    };
    let names = ts_capture_names(&q);
    let matches = ts_query_matches(&q, file);
    let syms = document_symbols_of(&names, &matches, file.source());
    Ok(syms)
}

} // verus!
