//! Call- and type-hierarchy items and other locations read from libclang.
//!
//! The server reads a cursor's spelling, kind, spelling location and
//! extent from libclang; the items are built here.

use vstd::prelude::*;

use crate::cursor_kinds::{
    clang_position, spelling_pos, CX_CURSOR_CXX_METHOD, CX_CURSOR_OBJC_CATEGORY_DECL,
    CX_CURSOR_OBJC_CLASS_METHOD_DECL, CX_CURSOR_OBJC_INSTANCE_METHOD_DECL, CX_CURSOR_OBJC_INTERFACE_DECL,
    CX_CURSOR_OBJC_PROTOCOL_DECL, CX_CURSOR_CALL_EXPR, CX_CURSOR_OBJC_MESSAGE_EXPR, CX_CURSOR_OBJC_PROTOCOL_REF,
    CX_CURSOR_OBJC_SUPER_CLASS_REF,
};
use crate::lsp::{Position, Range};
use crate::symbols::SymbolKind;
use crate::text::{append_str, chars_of, starts_with, str_eq, str_starts_with, string_of, to_owned_string};
use crate::token_scan::file_uri;

verus! {

/// The range of a libclang extent (1-based start and end).
pub open spec fn extent_to_range(sl: u32, sc: u32, el: u32, ec: u32) -> Range {
    Range { start: clang_position(sl, sc), end: clang_position(el, ec) }
}

/// The range of a libclang extent (1-based start and end).
pub fn cursor_range(sl: u32, sc: u32, el: u32, ec: u32) -> (r: Range)
    ensures
        r == extent_to_range(sl, sc, el, ec),
{
    Range { start: spelling_pos(sl, sc), end: spelling_pos(el, ec) }
}

/// An item of a call or type hierarchy.
#[derive(Debug, Clone)]
pub struct HierarchyItem {
    pub name: String,
    pub kind: SymbolKind,
    pub uri: String,
    pub range: Range,
    pub selection_range: Range,
}

/// What libclang tells of a cursor: spelling, kind, the file of its
/// spelling location (`None` when there is no file), that location
/// (1-based line and column) and its extent.
#[derive(Debug)]
pub struct CursorFacts {
    pub name: String,
    pub kind: i32,
    pub file: Option<String>,
    pub line: u32,
    pub col: u32,
    pub extent_start: (u32, u32),
    pub extent_end: (u32, u32),
}

/// The symbol kind of a callable cursor.
pub open spec fn call_symbol_kind(kind: i32) -> SymbolKind {
    if kind == CX_CURSOR_OBJC_INSTANCE_METHOD_DECL || kind == CX_CURSOR_OBJC_CLASS_METHOD_DECL || kind
        == CX_CURSOR_CXX_METHOD {
        SymbolKind::Method
    } else {
        SymbolKind::Function
    }
}

/// The symbol kind of a type cursor.
pub open spec fn type_symbol_kind(kind: i32) -> SymbolKind {
    if kind == CX_CURSOR_OBJC_PROTOCOL_DECL {
        SymbolKind::Interface
    } else if kind == CX_CURSOR_OBJC_CATEGORY_DECL {
        SymbolKind::Module
    } else {
        SymbolKind::Class
    }
}

/// The width of a name in bytes, as the server counts it.
pub open spec fn name_width(name: Seq<char>) -> u32 {
    (vstd::utf8::encode_utf8(name).len() as usize) as u32
}

/// The item of a cursor: none without a name or a file; otherwise its
/// name, symbol kind `kind`, the `file://` URI of its file, its extent,
/// and the selection of its name at its location (as wide as its bytes).
pub open spec fn item_of(c: CursorFacts, kind: SymbolKind, name_bytes: u32) -> Option<(Seq<char>, SymbolKind, Seq<char>, Range, Range)> {
    if c.name@.len() == 0 {
        None
    } else {
        match c.file {
            None => None,
            Some(f) => {
                let p = clang_position(c.line, c.col);
                Some(
                    (
                        c.name@,
                        kind,
                        "file://"@ + f@,
                        extent_to_range(c.extent_start.0, c.extent_start.1, c.extent_end.0, c.extent_end.1),
                        Range {
                            start: p,
                            end: Position { line: p.line, character: (p.character + name_bytes) as u32 },
                        },
                    ),
                )
            },
        }
    }
}

pub open spec fn item_view(i: HierarchyItem) -> (Seq<char>, SymbolKind, Seq<char>, Range, Range) {
    (i.name@, i.kind, i.uri@, i.range, i.selection_range)
}

fn item_with_kind(c: CursorFacts, kind: SymbolKind) -> (r: Option<HierarchyItem>)
    requires
        c.name@.len() > 0 && c.file is Some ==> clang_position(c.line, c.col).character + (
        name_width(c.name@)) <= u32::MAX,
    ensures
        match r {
            Some(i) => item_of(c, kind, name_width(c.name@)) == Some(item_view(i)),
            None => item_of(c, kind, name_width(c.name@)) is None,
        },
{
    if c.name.as_str().is_empty() {
        return None;
    }
    let file = match &c.file {
        Some(f) => f,
        None => {
            return None;
        },
    };
    let uri = file_uri(file.as_str());
    let (sl, sc) = c.extent_start;
    let (el, ec) = c.extent_end;
    let range = cursor_range(sl, sc, el, ec);
    let p = spelling_pos(c.line, c.col);
    let width = c.name.as_str().len() as u32;
    let sel = Range { start: p, end: Position { line: p.line, character: p.character + width } };
    Some(HierarchyItem { name: c.name, kind, uri, range, selection_range: sel })
}

/// The call-hierarchy item of a cursor: methods as methods, anything else
/// as a function.
pub fn cursor_to_call_item(c: CursorFacts) -> (r: Option<HierarchyItem>)
    requires
        c.name@.len() > 0 && c.file is Some ==> clang_position(c.line, c.col).character + (
        name_width(c.name@)) <= u32::MAX,
    ensures
        match r {
            Some(i) => item_of(c, call_symbol_kind(c.kind), name_width(c.name@)) == Some(
                item_view(i),
            ),
            None => item_of(c, call_symbol_kind(c.kind), name_width(c.name@)) is None,
        },
{
    let kind = if c.kind == CX_CURSOR_OBJC_INSTANCE_METHOD_DECL || c.kind == CX_CURSOR_OBJC_CLASS_METHOD_DECL
        || c.kind == CX_CURSOR_CXX_METHOD {
        SymbolKind::Method
    } else {
        SymbolKind::Function
    };
    item_with_kind(c, kind)
}

/// The type-hierarchy item of a cursor: protocols as interfaces,
/// categories as modules, anything else as a class.
pub fn cursor_to_type_item(c: CursorFacts) -> (r: Option<HierarchyItem>)
    requires
        c.name@.len() > 0 && c.file is Some ==> clang_position(c.line, c.col).character + (
        name_width(c.name@)) <= u32::MAX,
    ensures
        match r {
            Some(i) => item_of(c, type_symbol_kind(c.kind), name_width(c.name@)) == Some(
                item_view(i),
            ),
            None => item_of(c, type_symbol_kind(c.kind), name_width(c.name@)) is None,
        },
{
    let kind = if c.kind == CX_CURSOR_OBJC_PROTOCOL_DECL {
        SymbolKind::Interface
    } else if c.kind == CX_CURSOR_OBJC_CATEGORY_DECL {
        SymbolKind::Module
    } else {
        SymbolKind::Class
    };
    item_with_kind(c, kind)
}

/// The path of a `file://` URI.
pub fn uri_to_path(uri: &str) -> (r: Option<String>)
    ensures
        match r {
            Some(p) => starts_with(uri@, "file://"@) && p@ == uri@.skip(7),
            None => !starts_with(uri@, "file://"@),
        },
{
    if !str_starts_with(uri, "file://") {
        return None;
    }
    proof {
        reveal_strlit("file://");
    }
    let v = chars_of(uri);
    assert(v@.subrange(7, v.len() as int) =~= uri@.skip(7));
    Some(string_of(&v, 7, v.len()))
}

/// The key under which calls are gathered: the item's name, `:`, and its
/// URI.
pub open spec fn call_key(i: HierarchyItem) -> Seq<char> {
    i.name@ + ":"@ + i.uri@
}

/// The ranges of the calls whose item has the key `key`, in order.
pub open spec fn ranges_for(calls: Seq<(HierarchyItem, Range)>, key: Seq<char>) -> Seq<Range>
    decreases calls.len(),
{
    if calls.len() == 0 {
        seq![]
    } else {
        let rest = ranges_for(calls.drop_last(), key);
        if call_key(calls.last().0) == key {
            rest.push(calls.last().1)
        } else {
            rest
        }
    }
}

/// Call `k` is the first one with the key `key`.
pub open spec fn first_with_key(calls: Seq<(HierarchyItem, Range)>, key: Seq<char>, k: int) -> bool {
    &&& 0 <= k < calls.len()
    &&& call_key(calls[k].0) == key
    &&& forall|j: int| 0 <= j < k ==> call_key(#[trigger] calls[j].0) != key
}

/// `grp` gathers the calls with its key: its item is that of the first
/// such call, its ranges those of all of them, in order.
pub open spec fn group_of(calls: Seq<(HierarchyItem, Range)>, grp: (HierarchyItem, Vec<Range>)) -> bool {
    &&& exists|k: int| first_with_key(calls, call_key(grp.0), k) && item_view(grp.0) == item_view(calls[k].0)
    &&& grp.1@ == ranges_for(calls, call_key(grp.0))
}

/// Some group has the key `key`.
pub open spec fn key_listed(groups: Seq<(HierarchyItem, Vec<Range>)>, key: Seq<char>) -> bool {
    exists|g: int| 0 <= g < groups.len() && call_key(groups[g].0) == key
}

fn copy_item(i: &HierarchyItem) -> (r: HierarchyItem)
    ensures
        item_view(r) == item_view(*i),
{
    HierarchyItem {
        name: to_owned_string(i.name.as_str()),
        kind: i.kind,
        uri: to_owned_string(i.uri.as_str()),
        range: i.range,
        selection_range: i.selection_range,
    }
}

fn key_of(i: &HierarchyItem) -> (k: String)
    ensures
        k@ == call_key(*i),
{
    let mut k = to_owned_string(i.name.as_str());
    append_str(&mut k, ":");
    append_str(&mut k, i.uri.as_str());
    k
}

fn ranges_with_key(calls: &Vec<(HierarchyItem, Range)>, key: &str) -> (r: Vec<Range>)
    ensures
        r@ == ranges_for(calls@, key@),
{
    let mut out: Vec<Range> = Vec::new();
    let mut k: usize = 0;
    assert(calls@.take(0) =~= Seq::<(HierarchyItem, Range)>::empty());
    while k < calls.len()
        invariant
            k <= calls.len(),
            out@ == ranges_for(calls@.take(k as int), key@),
        decreases calls.len() - k,
    {
        assert(calls@.take(k + 1).drop_last() =~= calls@.take(k as int));
        assert(calls@.take(k + 1).last() == calls@[k as int]);
        let ck = key_of(&calls[k].0);
        if str_eq(ck.as_str(), key) {
            out.push(calls[k].1);
        }
        k = k + 1;
    }
    assert(calls@.take(calls.len() as int) =~= calls@);
    out
}

/// The calls (callee or caller item, range of the call) gathered by item:
/// one group per key (name and URI), in the order the keys are first
/// found, holding the item of the first call with that key and the
/// ranges of all calls with it, in order.
pub fn group_calls(calls: &Vec<(HierarchyItem, Range)>) -> (r: Vec<(HierarchyItem, Vec<Range>)>)
    ensures
        forall|g: int| 0 <= g < r.len() ==> group_of(calls@, #[trigger] r@[g]),
        forall|g: int, h: int|
            0 <= g < h < r.len() ==> call_key((#[trigger] r@[g]).0) != call_key((#[trigger] r@[h]).0),
        forall|k: int| 0 <= k < calls.len() ==> key_listed(r@, call_key((#[trigger] calls@[k]).0)),
{
    let mut out: Vec<(HierarchyItem, Vec<Range>)> = Vec::new();
    let mut k: usize = 0;
    while k < calls.len()
        invariant
            k <= calls.len(),
            forall|g: int| 0 <= g < out.len() ==> group_of(calls@, #[trigger] out@[g]),
            forall|g: int, h: int|
                0 <= g < h < out.len() ==> call_key((#[trigger] out@[g]).0) != call_key((#[trigger] out@[h]).0),
            forall|j: int| 0 <= j < k ==> key_listed(out@, call_key((#[trigger] calls@[j]).0)),
        decreases calls.len() - k,
    {
        let key = key_of(&calls[k].0);
        let mut seen = false;
        let mut g: usize = 0;
        while g < out.len()
            invariant
                g <= out.len(),
                key@ == call_key(calls@[k as int].0),
                !seen ==> forall|h: int| 0 <= h < g ==> call_key((#[trigger] out@[h]).0) != key@,
                seen ==> key_listed(out@, key@),
            decreases out.len() - g,
        {
            let gk = key_of(&out[g].0);
            if str_eq(gk.as_str(), key.as_str()) {
                seen = true;
            }
            g = g + 1;
        }
        if !seen {
            assert(first_with_key(calls@, key@, k as int)) by {
                assert forall|j: int| 0 <= j < k implies call_key(#[trigger] calls@[j].0) != key@ by {
                    assert(key_listed(out@, call_key(calls@[j].0)));
                    let g0 = choose|g0: int| 0 <= g0 < out.len() && call_key((#[trigger] out@[g0]).0) == call_key(calls@[j].0);
                }
            }
            let item = copy_item(&calls[k].0);
            let ranges = ranges_with_key(calls, key.as_str());
            let ghost before = out@;
            out.push((item, ranges));
            assert forall|j: int| 0 <= j < k + 1 implies key_listed(out@, call_key((#[trigger] calls@[j]).0)) by {
                if j < k {
                    assert(key_listed(before, call_key(calls@[j].0)));
                    let g0 = choose|g0: int| 0 <= g0 < before.len() && call_key((#[trigger] before[g0]).0) == call_key(calls@[j].0);
                    assert(out@[g0] == before[g0]);
                } else {
                    assert(call_key(out@[before.len() as int].0) == key@);
                }
            }
            assert forall|g: int| 0 <= g < out.len() implies group_of(calls@, #[trigger] out@[g]) by {
                if g < before.len() {
                    assert(out@[g] == before[g]);
                } else {
                    assert(first_with_key(calls@, call_key(out@[g].0), k as int));
                    assert(item_view(out@[g].0) == item_view(calls@[k as int].0));
                }
            }
        }
        k = k + 1;
    }
    out
}

/// Whether a cursor of kind `kind` is a call: a message send or a
/// function call.
pub fn is_call_expr_kind(kind: i32) -> (b: bool)
    ensures
        b == (kind == CX_CURSOR_OBJC_MESSAGE_EXPR || kind == CX_CURSOR_CALL_EXPR),
{
    kind == CX_CURSOR_OBJC_MESSAGE_EXPR || kind == CX_CURSOR_CALL_EXPR
}

/// Whether a child of kind `kind` of a type declaration names one of its
/// supertypes: a superclass or a protocol reference.
pub fn is_supertype_ref(kind: i32) -> (b: bool)
    ensures
        b == (kind == CX_CURSOR_OBJC_SUPER_CLASS_REF || kind == CX_CURSOR_OBJC_PROTOCOL_REF),
{
    kind == CX_CURSOR_OBJC_SUPER_CLASS_REF || kind == CX_CURSOR_OBJC_PROTOCOL_REF
}

/// Whether a declaration of kind `kind` is searched for subtypes:
/// interfaces always, protocols when the supertype is a protocol.
pub fn subtype_candidate(kind: i32, is_protocol: bool) -> (b: bool)
    ensures
        b == (kind == CX_CURSOR_OBJC_INTERFACE_DECL || (is_protocol && kind == CX_CURSOR_OBJC_PROTOCOL_DECL)),
{
    kind == CX_CURSOR_OBJC_INTERFACE_DECL || (is_protocol && kind == CX_CURSOR_OBJC_PROTOCOL_DECL)
}

/// Whether a child of kind `kind`, whose referenced declaration is spelled
/// `referenced` (`None` when it refers to nothing), links its declaration
/// to the supertype `target`: a superclass reference when the supertype
/// is a class, a protocol reference when it is a protocol.
pub fn links_to_supertype(kind: i32, is_protocol: bool, referenced: Option<&str>, target: &str) -> (b: bool)
    ensures
        b == (((kind == CX_CURSOR_OBJC_SUPER_CLASS_REF && !is_protocol) || (kind == CX_CURSOR_OBJC_PROTOCOL_REF
            && is_protocol)) && (referenced matches Some(n) && n@ == target@)),
{
    let right_kind = (kind == CX_CURSOR_OBJC_SUPER_CLASS_REF && !is_protocol) || (kind
        == CX_CURSOR_OBJC_PROTOCOL_REF && is_protocol);
    if !right_kind {
        return false;
    }
    match referenced {
        Some(n) => str_eq(n, target),
        None => false,
    }
}

} // verus!
