//! Semantic tokens for Objective-C, read from the syntax tree.
//!
//! Tokens are classified by the kind of their node, ordered by position
//! and delta-encoded in the packed form of `textDocument/semanticTokens`.

use vstd::prelude::*;
use vstd::string::StringSliceAdditionalSpecFns;
use vstd::utf8::{decode_utf8, encode_utf8};

use crate::parser::{is_tree_of, ParsedFile};
use crate::syntax_tree::{node_bytes, node_text, NodeSpan, SyntaxTree};
use crate::text::{byte_len, byte_len_of, chars_of, line_spans, lines, str_eq, to_owned_string};

verus! {

// ---------------------------------------------------------------------------
// Legend
// ---------------------------------------------------------------------------

/// The token types, in order: the index of a name is its `tokenType`.
pub open spec fn token_type_names() -> Seq<Seq<char>> {
    seq![
        "namespace"@,
        "class"@,
        "method"@,
        "property"@,
        "macro"@,
        "keyword"@,
        "type"@,
        "variable"@,
        "string"@,
        "number"@,
        "comment"@,
        "parameter"@,
        "function"@,
    ]
}

/// The token modifiers, in order: modifier `i` is bit `i`.
pub open spec fn token_modifier_names() -> Seq<Seq<char>> {
    seq!["declaration"@, "definition"@, "static"@, "deprecated"@]
}

/// The names of the token types, in legend order.
pub fn token_types() -> (r: Vec<String>)
    ensures
        r@.map_values(|s: String| s@) == token_type_names(),
{
    let mut r: Vec<String> = Vec::new();
    r.push(to_owned_string("namespace"));
    r.push(to_owned_string("class"));
    r.push(to_owned_string("method"));
    r.push(to_owned_string("property"));
    r.push(to_owned_string("macro"));
    r.push(to_owned_string("keyword"));
    r.push(to_owned_string("type"));
    r.push(to_owned_string("variable"));
    r.push(to_owned_string("string"));
    r.push(to_owned_string("number"));
    r.push(to_owned_string("comment"));
    r.push(to_owned_string("parameter"));
    r.push(to_owned_string("function"));
    assert(r@.map_values(|s: String| s@) =~= token_type_names());
    r
}

/// The names of the token modifiers, in legend order.
pub fn token_modifiers() -> (r: Vec<String>)
    ensures
        r@.map_values(|s: String| s@) == token_modifier_names(),
{
    let mut r: Vec<String> = Vec::new();
    r.push(to_owned_string("declaration"));
    r.push(to_owned_string("definition"));
    r.push(to_owned_string("static"));
    r.push(to_owned_string("deprecated"));
    assert(r@.map_values(|s: String| s@) =~= token_modifier_names());
    r
}

/// The legend advertised with the server's capabilities.
pub struct SemanticTokensLegend {
    pub token_types: Vec<String>,
    pub token_modifiers: Vec<String>,
}

/// The semantic-token options advertised with the server's capabilities.
pub struct SemanticTokensOptions {
    pub legend: SemanticTokensLegend,
    /// Whole-document requests are served.
    pub full: bool,
    /// Range requests are not served.
    pub range: bool,
}

/// Build the legend to advertise in capabilities.
pub fn semantic_tokens_legend() -> (l: SemanticTokensLegend)
    ensures
        l.token_types@.map_values(|s: String| s@) == token_type_names(),
        l.token_modifiers@.map_values(|s: String| s@) == token_modifier_names(),
{
    SemanticTokensLegend { token_types: token_types(), token_modifiers: token_modifiers() }
}

/// Build the options to advertise in capabilities: full documents, no
/// ranges.
pub fn semantic_tokens_options() -> (o: SemanticTokensOptions)
    ensures
        o.legend.token_types@.map_values(|s: String| s@) == token_type_names(),
        o.legend.token_modifiers@.map_values(|s: String| s@) == token_modifier_names(),
        o.full,
        !o.range,
{
    SemanticTokensOptions { legend: semantic_tokens_legend(), full: true, range: false }
}

// ---------------------------------------------------------------------------
// Encoding helpers
// ---------------------------------------------------------------------------

/// The index of `ty` among the token type names.
pub open spec fn type_index(ty: Seq<char>) -> Option<u32> {
    if exists|i: int| 0 <= i < token_type_names().len() && token_type_names()[i] == ty {
        Some((choose|i: int| 0 <= i < token_type_names().len() && token_type_names()[i] == ty) as u32)
    } else {
        None
    }
}

/// The index of `ty` among the token type names.
pub fn token_type_index(ty: &str) -> (r: Option<u32>)
    ensures
        r == type_index(ty@),
{
    let names = token_types();
    let ghost ns = token_type_names();
    proof {
        reveal_strlit("namespace");
        reveal_strlit("class");
        reveal_strlit("method");
        reveal_strlit("property");
        reveal_strlit("macro");
        reveal_strlit("keyword");
        reveal_strlit("type");
        reveal_strlit("variable");
        reveal_strlit("string");
        reveal_strlit("number");
        reveal_strlit("comment");
        reveal_strlit("parameter");
        reveal_strlit("function");
        assert forall|a: int, b: int| 0 <= a < b < ns.len() implies ns[a] != ns[b] by {
            if ns[a] == ns[b] {
                assert(ns[a].len() == ns[b].len());
                assert(ns[a][0] == ns[b][0]);
                assert(ns[a][ns[a].len() - 1] == ns[b][ns[b].len() - 1]);
            }
        }
    }
    let mut i: usize = 0;
    while i < names.len()
        invariant
            i <= names.len(),
            names@.map_values(|s: String| s@) == ns,
            ns == token_type_names(),
            forall|a: int, b: int| 0 <= a < b < ns.len() ==> ns[a] != ns[b],
            forall|a: int| 0 <= a < i ==> ns[a] != ty@,
        decreases names.len() - i,
    {
        assert(names@.map_values(|s: String| s@)[i as int] == names@[i as int]@);
        if str_eq(names[i].as_str(), ty) {
            let ghost w = choose|j: int| 0 <= j < ns.len() && ns[j] == ty@;
            assert(w == i);
            return Some(i as u32);
        }
        i = i + 1;
    }
    None
}

/// Bit `m` set for each modifier `m` of `mods`.
pub open spec fn mod_bits(mods: Seq<u32>) -> u32
    decreases mods.len(),
{
    if mods.len() == 0 {
        0
    } else {
        mod_bits(mods.drop_last()) | (1u32 << mods.last())
    }
}

/// Bit `m` set for each modifier `m` of `mods`.
pub fn modifier_bits(mods: &[u32]) -> (r: u32)
    requires
        forall|i: int| 0 <= i < mods@.len() ==> mods@[i] < 32,
    ensures
        r == mod_bits(mods@),
{
    let mut acc: u32 = 0;
    let mut i: usize = 0;
    while i < mods.len()
        invariant
            i <= mods@.len(),
            forall|k: int| 0 <= k < mods@.len() ==> mods@[k] < 32,
            acc == mod_bits(mods@.take(i as int)),
        decreases mods@.len() - i,
    {
        assert(mods@.take(i + 1).drop_last() =~= mods@.take(i as int));
        acc = acc | (1u32 << mods[i]);
        i = i + 1;
    }
    assert(mods@.take(mods@.len() as int) =~= mods@);
    acc
}

// ---------------------------------------------------------------------------
// Collected tokens
// ---------------------------------------------------------------------------

/// A token before delta encoding.
#[derive(Debug, Clone, Copy, PartialEq, Eq, Structural)]
pub struct RawToken {
    pub line: u32,
    pub start_char: u32,
    pub length: u32,
    pub token_type: u32,
    pub modifier_bits: u32,
}

/// The tokens of `s` that cover at least one byte, in order.
pub open spec fn nonempty_tokens(s: Seq<RawToken>) -> Seq<RawToken>
    decreases s.len(),
{
    if s.len() == 0 {
        seq![]
    } else if s.last().length > 0 {
        nonempty_tokens(s.drop_last()).push(s.last())
    } else {
        nonempty_tokens(s.drop_last())
    }
}

/// The tokens of a node of type `ty` with modifiers `mods`: none when `ty`
/// is not a token type; one token for a node on one line, as long as its
/// bytes; one token per line of its text otherwise.  A token that would
/// cover no byte (an empty node, an empty line) is left out.
pub open spec fn node_token_seq(src: Seq<u8>, sp: NodeSpan, ty: Seq<char>, mods: Seq<u32>) -> Seq<RawToken> {
    match type_index(ty) {
        None => seq![],
        Some(tt) => if sp.start_row == sp.end_row {
            nonempty_tokens(
                seq![
                    RawToken {
                        line: sp.start_row as u32,
                        start_char: sp.start_col as u32,
                        length: (node_bytes(src, sp).len() as usize) as u32,
                        token_type: tt,
                        modifier_bits: mod_bits(mods),
                    },
                ],
            )
        } else {
            nonempty_tokens(line_tokens(src, sp, tt, mods))
        },
    }
}

/// One token per line of the text of a node spanning several lines.
pub open spec fn line_tokens(src: Seq<u8>, sp: NodeSpan, tt: u32, mods: Seq<u32>) -> Seq<RawToken> {
    let ls = lines(decode_utf8(node_bytes(src, sp)));
    Seq::new(
        ls.len(),
        |i: int|
            RawToken {
                line: (sp.start_row + i) as u32,
                start_char: if i == 0 {
                    sp.start_col as u32
                } else {
                    0
                },
                length: byte_len(ls[i]) as u32,
                token_type: tt,
                modifier_bits: mod_bits(mods),
            },
    )
}

/// Tokens gathered while walking a tree.
pub struct TokenCollector {
    pub tokens: Vec<RawToken>,
}

impl TokenCollector {
    pub fn new() -> (c: Self)
        ensures
            c.tokens@ == Seq::<RawToken>::empty(),
    {
        TokenCollector { tokens: Vec::new() }
    }

    /// Add the tokens of the node spanning `sp`, of type `type_str`, with
    /// modifiers `mods`.
    pub fn push(&mut self, sp: NodeSpan, src: &str, type_str: &str, mods: &[u32])
        requires
            forall|i: int| 0 <= i < mods@.len() ==> mods@[i] < 32,
        ensures
            final(self).tokens@ == old(self).tokens@ + node_token_seq(src.spec_bytes(), sp, type_str@, mods@),
    {
        let tt = match token_type_index(type_str) {
            Some(tt) => tt,
            None => {
                return;
            },
        };
        let bits = modifier_bits(mods);
        let text = node_text(src, sp);
        if sp.start_row == sp.end_row {
            let tok = RawToken {
                line: sp.start_row as u32,
                start_char: sp.start_col as u32,
                length: text.len() as u32,
                token_type: tt,
                modifier_bits: bits,
            };
            let ghost one = seq![tok];
            assert(one.drop_last() =~= Seq::<RawToken>::empty());
            assert(one.last() == tok);
            assert(nonempty_tokens(Seq::<RawToken>::empty()) == Seq::<RawToken>::empty());
            assert(node_token_seq(src.spec_bytes(), sp, type_str@, mods@) == nonempty_tokens(one));
            if tok.length > 0 {
                self.tokens.push(tok);
                assert(node_token_seq(src.spec_bytes(), sp, type_str@, mods@) =~= seq![tok]);
            } else {
                assert(node_token_seq(src.spec_bytes(), sp, type_str@, mods@) =~= Seq::<RawToken>::empty());
                assert(self.tokens@ =~= old(self).tokens@ + Seq::<RawToken>::empty());
            }
            return;
        }
        let v = chars_of(text);
        proof {
            vstd::utf8::encode_utf8_decode_utf8(text@);
        }
        let ghost ls = lines(v@);
        let ghost want = line_tokens(src.spec_bytes(), sp, tt, mods@);
        assert(ls == lines(decode_utf8(node_bytes(src.spec_bytes(), sp))));
        let spans = line_spans(&v);
        let ghost start = self.tokens@;
        let mut i: usize = 0;
        while i < spans.len()
            invariant
                i <= spans.len(),
                spans.len() == ls.len(),
                ls == lines(v@),
                ls == lines(decode_utf8(node_bytes(src.spec_bytes(), sp))),
                forall|k: int| #![trigger spans@[k]] 0 <= k < spans.len() ==> spans@[k].0 <= spans@[k].1 <= v.len(),
                forall|k: int|
                    #![trigger spans@[k]]
                    0 <= k < spans.len() ==> v@.subrange(spans@[k].0 as int, spans@[k].1 as int) == ls[k],
                want.len() == ls.len(),
                want == line_tokens(src.spec_bytes(), sp, tt, mods@),
                type_index(type_str@) == Some(tt),
                bits == mod_bits(mods@),
                sp.start_row != sp.end_row,
                self.tokens@ == start + nonempty_tokens(want.take(i as int)),
            decreases spans.len() - i,
        {
            let (a, b) = spans[i];
            let n = byte_len_of(&v, a, b);
            let row = ((sp.start_row as u128) + (i as u128)) as u32;
            let col = if i == 0 {
                sp.start_col as u32
            } else {
                0
            };
            let tok = RawToken { line: row, start_char: col, length: n as u32, token_type: tt, modifier_bits: bits };
            assert(v@.subrange(a as int, b as int) == ls[i as int]);
            assert(tok == want[i as int]);
            assert(want.take(i + 1).drop_last() =~= want.take(i as int));
            assert(want.take(i + 1).last() == tok);
            if tok.length > 0 {
                self.tokens.push(tok);
                assert(self.tokens@ =~= start + nonempty_tokens(want.take(i + 1)));
            }
            i = i + 1;
        }
        assert(want.take(spans.len() as int) =~= want);
    }
}

// ---------------------------------------------------------------------------
// Node classification
// ---------------------------------------------------------------------------

/// Node kinds emitted as keywords.
pub open spec fn keyword_kinds() -> Seq<Seq<char>> {
    seq![
        "@interface"@,
        "@implementation"@,
        "@protocol"@,
        "@end"@,
        "@property"@,
        "@synthesize"@,
        "@dynamic"@,
        "@selector"@,
        "@encode"@,
        "@try"@,
        "@catch"@,
        "@finally"@,
        "@throw"@,
        "@autoreleasepool"@,
        "@class"@,
        "in"@,
        "self"@,
        "super"@,
        "nil"@,
        "YES"@,
        "NO"@,
        "true"@,
        "false"@,
        "NULL"@,
        "id"@,
        "Class"@,
        "SEL"@,
        "IMP"@,
        "BOOL"@,
    ]
}

fn is_keyword_kind(k: &str) -> (b: bool)
    ensures
        b == keyword_kinds().contains(k@),
{
    let kinds: Vec<&str> = vec![
        "@interface",
        "@implementation",
        "@protocol",
        "@end",
        "@property",
        "@synthesize",
        "@dynamic",
        "@selector",
        "@encode",
        "@try",
        "@catch",
        "@finally",
        "@throw",
        "@autoreleasepool",
        "@class",
        "in",
        "self",
        "super",
        "nil",
        "YES",
        "NO",
        "true",
        "false",
        "NULL",
        "id",
        "Class",
        "SEL",
        "IMP",
        "BOOL",
    ];
    let ghost ks = keyword_kinds();
    assert(kinds@.map_values(|s: &str| s@) =~= ks);
    let mut i: usize = 0;
    while i < kinds.len()
        invariant
            i <= kinds.len(),
            kinds@.map_values(|s: &str| s@) == ks,
            ks == keyword_kinds(),
            forall|j: int| 0 <= j < i ==> ks[j] != k@,
        decreases kinds.len() - i,
    {
        assert(kinds@.map_values(|s: &str| s@)[i as int] == kinds@[i as int]@);
        if str_eq(kinds[i], k) {
            assert(ks[i as int] == k@);
            assert(ks.contains(k@));
            return true;
        }
        i = i + 1;
    }
    false
}

pub open spec fn is_decl_block_kind(k: Seq<char>) -> bool {
    ||| k == "class_interface"@
    ||| k == "class_implementation"@
    ||| k == "category_interface"@
    ||| k == "category_implementation"@
    ||| k == "protocol_declaration"@
}

/// The tokens of the node that is field `field` of node `i`, if any.
pub open spec fn field_tokens(
    t: SyntaxTree,
    src: Seq<u8>,
    i: int,
    field: Seq<char>,
    ty: Seq<char>,
    mods: Seq<u32>,
) -> Seq<RawToken> {
    match t.field_child(i, field) {
        Some(c) => node_token_seq(src, t.span(c), ty, mods),
        None => seq![],
    }
}

/// The property names declared by the `property_declarator` children
/// `j..` of node `i`.
pub open spec fn property_name_tokens(t: SyntaxTree, src: Seq<u8>, i: int, j: int) -> Seq<RawToken>
    decreases t.child_count(i) - j,
{
    if 0 <= j < t.child_count(i) {
        let c = t.child(i, j);
        (if t.kind(c) == "property_declarator"@ {
            field_tokens(t, src, c, "declarator"@, "property"@, seq![0u32])
        } else {
            seq![]
        }) + property_name_tokens(t, src, i, j + 1)
    } else {
        seq![]
    }
}

/// The tokens of the subtree under node `i`, in walk order.
pub open spec fn node_tokens(t: SyntaxTree, src: Seq<u8>, i: int) -> Seq<RawToken>
    decreases t.depth_left(i), t.child_count(i) + 1,
{
    if !(t.wf() && 0 <= i < t.nodes.len()) {
        seq![]
    } else {
        let k = t.kind(i);
        let sp = t.span(i);
        let kids = child_tokens(t, src, i, 0);
        if keyword_kinds().contains(k) {
            node_token_seq(src, sp, "keyword"@, seq![]) + kids
        } else if is_decl_block_kind(k) {
            field_tokens(t, src, i, "name"@, "namespace"@, seq![0u32, 1u32]) + kids
        } else if k == "method_declaration"@ {
            field_tokens(t, src, i, "selector"@, "method"@, seq![0u32]) + kids
        } else if k == "method_definition"@ {
            field_tokens(t, src, i, "selector"@, "method"@, seq![0u32, 1u32]) + kids
        } else if k == "parameter_declaration"@ {
            field_tokens(t, src, i, "declarator"@, "parameter"@, seq![0u32]) + kids
        } else if k == "property_declaration"@ {
            property_name_tokens(t, src, i, 0) + kids
        } else if k == "type_identifier"@ {
            node_token_seq(src, sp, "type"@, seq![])
        } else if k == "function_declarator"@ {
            field_tokens(t, src, i, "declarator"@, "function"@, seq![0u32]) + kids
        } else if k == "preproc_def"@ || k == "preproc_function_def"@ {
            field_tokens(t, src, i, "name"@, "macro"@, seq![0u32, 1u32]) + kids
        } else if k == "preproc_call"@ {
            field_tokens(t, src, i, "directive"@, "keyword"@, seq![]) + kids
        } else if k == "string_literal"@ || k == "string_expression"@ {
            node_token_seq(src, sp, "string"@, seq![])
        } else if k == "number_literal"@ {
            node_token_seq(src, sp, "number"@, seq![])
        } else if k == "comment"@ {
            node_token_seq(src, sp, "comment"@, seq![])
        } else if k == "identifier"@ {
            node_token_seq(src, sp, "variable"@, seq![])
        } else {
            kids
        }
    }
}

/// The field of a node of kind `k` whose node the walk has already given a
/// token of its own (see `node_tokens`).
pub open spec fn handled_field(k: Seq<char>) -> Option<Seq<char>> {
    if is_decl_block_kind(k) || k == "preproc_def"@ || k == "preproc_function_def"@ {
        Some("name"@)
    } else if k == "method_declaration"@ || k == "method_definition"@ {
        Some("selector"@)
    } else if k == "parameter_declaration"@ || k == "function_declarator"@ || k == "property_declarator"@ {
        Some("declarator"@)
    } else if k == "preproc_call"@ {
        Some("directive"@)
    } else {
        None
    }
}

/// The child of node `i` that already has its token: it is not walked
/// again, so that no name is given two tokens.
pub open spec fn handled_child(t: SyntaxTree, i: int) -> Option<int> {
    match handled_field(t.kind(i)) {
        Some(f) => t.field_child(i, f),
        None => None,
    }
}

/// The tokens of the subtrees under children `j..` of node `i`, but for
/// the child that already has its token.
pub open spec fn child_tokens(t: SyntaxTree, src: Seq<u8>, i: int, j: int) -> Seq<RawToken>
    decreases t.depth_left(i), t.child_count(i) - j,
{
    if t.wf() && 0 <= i < t.nodes.len() && 0 <= j < t.child_count(i) {
        let c = t.child(i, j);
        proof {
            assert(i < t.children@[i]@[j] < t.nodes.len());
        }
        (if handled_child(t, i) == Some(c) {
            seq![]
        } else {
            node_tokens(t, src, c)
        }) + child_tokens(t, src, i, j + 1)
    } else {
        seq![]
    }
}

fn mods_none() -> (m: Vec<u32>)
    ensures
        m@ == Seq::<u32>::empty(),
{
    Vec::new()
}

fn mods_decl() -> (m: Vec<u32>)
    ensures
        m@ == seq![0u32],
{
    let mut m = Vec::new();
    m.push(0u32);
    m
}

fn mods_decl_def() -> (m: Vec<u32>)
    ensures
        m@ == seq![0u32, 1u32],
{
    let mut m = Vec::new();
    m.push(0u32);
    m.push(1u32);
    m
}

/// Add the tokens of field `field` of node `i`.
fn push_field(
    t: &SyntaxTree,
    src: &str,
    i: usize,
    field: &str,
    ty: &str,
    mods: &Vec<u32>,
    col: &mut TokenCollector,
)
    requires
        t.wf(),
        i < t.nodes.len(),
        forall|k: int| 0 <= k < mods@.len() ==> mods@[k] < 32,
    ensures
        final(col).tokens@ == old(col).tokens@ + field_tokens(*t, src.spec_bytes(), i as int, field@, ty@, mods@),
{
    match t.child_by_field(i, field) {
        Some(c) => col.push(t.nodes[c].span, src, ty, mods.as_slice()),
        None => {
            assert(col.tokens@ =~= old(col).tokens@ + Seq::<RawToken>::empty());
        },
    }
}

/// Walk the subtree under node `i` and add its tokens.
pub fn walk_node(t: &SyntaxTree, src: &str, i: usize, col: &mut TokenCollector)
    requires
        t.wf(),
        i < t.nodes.len(),
    ensures
        final(col).tokens@ == old(col).tokens@ + node_tokens(*t, src.spec_bytes(), i as int),
    decreases t.depth_left(i as int),
{
    let ghost sb = src.spec_bytes();
    let ghost start = col.tokens@;
    let k = t.nodes[i].kind.as_str();
    let sp = t.nodes[i].span;
    let none = mods_none();
    let decl = mods_decl();
    let decl_def = mods_decl_def();
    let mut recurse = true;
    if is_keyword_kind(k) {
        col.push(sp, src, "keyword", none.as_slice());
    } else if str_eq(k, "class_interface") || str_eq(k, "class_implementation") || str_eq(k, "category_interface")
        || str_eq(k, "category_implementation") || str_eq(k, "protocol_declaration") {
        push_field(t, src, i, "name", "namespace", &decl_def, col);
    } else if str_eq(k, "method_declaration") {
        push_field(t, src, i, "selector", "method", &decl, col);
    } else if str_eq(k, "method_definition") {
        push_field(t, src, i, "selector", "method", &decl_def, col);
    } else if str_eq(k, "parameter_declaration") {
        push_field(t, src, i, "declarator", "parameter", &decl, col);
    } else if str_eq(k, "property_declaration") {
        let n = t.children[i].len();
        let mut j: usize = 0;
        while j < n
            invariant
                t.wf(),
                i < t.nodes.len(),
                n == t.child_count(i as int),
                j <= n,
                sb == src.spec_bytes(),
                decl@ == seq![0u32],
                col.tokens@ + property_name_tokens(*t, sb, i as int, j as int) == start
                    + property_name_tokens(*t, sb, i as int, 0),
            decreases n - j,
        {
            let c = t.children[i][j];
            assert(t.child(i as int, j as int) == c);
            let ghost before = col.tokens@;
            if str_eq(t.nodes[c].kind.as_str(), "property_declarator") {
                push_field(t, src, c, "declarator", "property", &decl, col);
            }
            assert(col.tokens@ + property_name_tokens(*t, sb, i as int, j + 1) == before
                + property_name_tokens(*t, sb, i as int, j as int));
            j = j + 1;
        }
    } else if str_eq(k, "type_identifier") {
        col.push(sp, src, "type", none.as_slice());
        recurse = false;
    } else if str_eq(k, "function_declarator") {
        push_field(t, src, i, "declarator", "function", &decl, col);
    } else if str_eq(k, "preproc_def") || str_eq(k, "preproc_function_def") {
        push_field(t, src, i, "name", "macro", &decl_def, col);
    } else if str_eq(k, "preproc_call") {
        push_field(t, src, i, "directive", "keyword", &none, col);
    } else if str_eq(k, "string_literal") || str_eq(k, "string_expression") {
        col.push(sp, src, "string", none.as_slice());
        recurse = false;
    } else if str_eq(k, "number_literal") {
        col.push(sp, src, "number", none.as_slice());
        recurse = false;
    } else if str_eq(k, "comment") {
        col.push(sp, src, "comment", none.as_slice());
        recurse = false;
    } else if str_eq(k, "identifier") {
        col.push(sp, src, "variable", none.as_slice());
        recurse = false;
    }
    let ghost own = col.tokens@;
    if recurse {
        recurse_children(t, src, i, col);
        assert(col.tokens@ == start + node_tokens(*t, sb, i as int));
    } else {
        assert(col.tokens@ == start + node_tokens(*t, sb, i as int));
    }
}

fn handled_child_exec(t: &SyntaxTree, i: usize) -> (r: Option<usize>)
    requires
        t.wf(),
        i < t.nodes.len(),
    ensures
        match r {
            Some(h) => handled_child(*t, i as int) == Some(h as int),
            None => handled_child(*t, i as int) is None,
        },
{
    let k = t.nodes[i].kind.as_str();
    proof {
        reveal_strlit("name");
        reveal_strlit("selector");
        reveal_strlit("declarator");
        reveal_strlit("directive");
    }
    if str_eq(k, "class_interface") || str_eq(k, "class_implementation") || str_eq(k, "category_interface")
        || str_eq(k, "category_implementation") || str_eq(k, "protocol_declaration") || str_eq(k, "preproc_def")
        || str_eq(k, "preproc_function_def") {
        t.child_by_field(i, "name")
    } else if str_eq(k, "method_declaration") || str_eq(k, "method_definition") {
        t.child_by_field(i, "selector")
    } else if str_eq(k, "parameter_declaration") || str_eq(k, "function_declarator") || str_eq(
        k,
        "property_declarator",
    ) {
        t.child_by_field(i, "declarator")
    } else if str_eq(k, "preproc_call") {
        t.child_by_field(i, "directive")
    } else {
        None
    }
}

/// Walk the subtrees under the children of node `i`, in order.
fn recurse_children(t: &SyntaxTree, src: &str, i: usize, col: &mut TokenCollector)
    requires
        t.wf(),
        i < t.nodes.len(),
    ensures
        final(col).tokens@ == old(col).tokens@ + child_tokens(*t, src.spec_bytes(), i as int, 0),
    decreases t.depth_left(i as int), 0nat,
{
    let ghost sb = src.spec_bytes();
    let ghost start = col.tokens@;
    let skip = handled_child_exec(t, i);
    let n = t.children[i].len();
    let mut j: usize = 0;
    while j < n
        invariant
            t.wf(),
            i < t.nodes.len(),
            n == t.child_count(i as int),
            j <= n,
            sb == src.spec_bytes(),
            match skip {
                Some(h) => handled_child(*t, i as int) == Some(h as int),
                None => handled_child(*t, i as int) is None,
            },
            col.tokens@ + child_tokens(*t, sb, i as int, j as int) == start + child_tokens(*t, sb, i as int, 0),
        decreases n - j,
    {
        let c = t.children[i][j];
        assert(t.child(i as int, j as int) == c);
        assert(i < c < t.nodes.len());
        let ghost before = col.tokens@;
        let handled = match skip {
            Some(h) => h == c,
            None => false,
        };
        if handled {
            assert(col.tokens@ =~= col.tokens@ + Seq::<RawToken>::empty());
        } else {
            walk_node(t, src, c, col);
        }
        assert(child_tokens(*t, sb, i as int, j as int) == (if handled {
            Seq::<RawToken>::empty()
        } else {
            node_tokens(*t, sb, c as int)
        }) + child_tokens(*t, sb, i as int, j + 1));
        assert(col.tokens@ + child_tokens(*t, sb, i as int, j + 1) == before + child_tokens(
            *t,
            sb,
            i as int,
            j as int,
        ));
        j = j + 1;
    }
    assert(child_tokens(*t, sb, i as int, n as int) == Seq::<RawToken>::empty());
}

// ---------------------------------------------------------------------------
// Ordering and delta encoding
// ---------------------------------------------------------------------------

/// Whether token `a` starts before token `b`.
pub open spec fn starts_before(a: RawToken, b: RawToken) -> bool {
    a.line < b.line || (a.line == b.line && a.start_char < b.start_char)
}

/// The first index from `j` on whose token does not start before `x`.
pub open spec fn first_not_before(s: Seq<RawToken>, x: RawToken, j: int) -> int
    decreases s.len() - j,
{
    if j < 0 || j >= s.len() {
        s.len() as int
    } else if !starts_before(s[j], x) {
        j
    } else {
        first_not_before(s, x, j + 1)
    }
}

/// `x` put in front of the first token of `s` that does not start
/// before it.
pub open spec fn insert_token(s: Seq<RawToken>, x: RawToken) -> Seq<RawToken> {
    let p = first_not_before(s, x, 0);
    s.take(p).push(x) + s.skip(p)
}

/// `s` ordered by (line, start character); tokens at the same position
/// keep their order (the result of a stable sort).
pub open spec fn sort_tokens(s: Seq<RawToken>) -> Seq<RawToken>
    decreases s.len(),
{
    if s.len() == 0 {
        s
    } else {
        insert_token(sort_tokens(s.drop_first()), s[0])
    }
}

pub open spec fn tokens_sorted(s: Seq<RawToken>) -> bool {
    forall|a: int, b: int| 0 <= a <= b < s.len() ==> !starts_before(s[b], s[a])
}

proof fn lemma_first_not_before(s: Seq<RawToken>, x: RawToken, j: int)
    requires
        0 <= j <= s.len(),
    ensures
        j <= first_not_before(s, x, j) <= s.len(),
        forall|k: int| j <= k < first_not_before(s, x, j) ==> starts_before(s[k], x),
        first_not_before(s, x, j) < s.len() ==> !starts_before(s[first_not_before(s, x, j)], x),
    decreases s.len() - j,
{
    if j < s.len() && starts_before(s[j], x) {
        lemma_first_not_before(s, x, j + 1);
    }
}

/// Sorting gives tokens ordered by position, the same tokens as before.
pub proof fn lemma_sort_tokens(s: Seq<RawToken>)
    ensures
        tokens_sorted(sort_tokens(s)),
        sort_tokens(s).to_multiset() == s.to_multiset(),
    decreases s.len(),
{
    if s.len() > 0 {
        let rest = sort_tokens(s.drop_first());
        lemma_sort_tokens(s.drop_first());
        let x = s[0];
        let p = first_not_before(rest, x, 0);
        lemma_first_not_before(rest, x, 0);
        let r = insert_token(rest, x);
        assert forall|a: int, b: int| 0 <= a <= b < r.len() implies !starts_before(r[b], r[a]) by {
            if b < p {
                assert(r[a] == rest[a] && r[b] == rest[b]);
            } else if b == p {
                if a < p {
                    assert(r[a] == rest[a] && starts_before(rest[a], x));
                }
            } else {
                assert(r[b] == rest[b - 1]);
                assert(!starts_before(rest[b - 1], rest[p]));
                assert(!starts_before(rest[p], x));
                if a < p {
                    assert(r[a] == rest[a] && starts_before(rest[a], x));
                } else if a > p {
                    assert(r[a] == rest[a - 1]);
                }
            }
        }
        broadcast use vstd::seq_lib::group_to_multiset_ensures;

        vstd::seq_lib::lemma_multiset_commutative(rest.take(p).push(x), rest.skip(p));
        vstd::seq_lib::lemma_multiset_commutative(rest.take(p), rest.skip(p));
        assert(rest.take(p) + rest.skip(p) =~= rest);
        assert(r.to_multiset() =~= rest.to_multiset().insert(x));
        assert(s =~= seq![x] + s.drop_first());
        vstd::seq_lib::lemma_multiset_commutative(seq![x], s.drop_first());
        assert(seq![x].to_multiset() =~= vstd::multiset::Multiset::empty().insert(x));
        assert(s.to_multiset() =~= s.drop_first().to_multiset().insert(x));
    }
}

/// A token in the packed LSP form: position relative to the previous
/// token.
#[derive(Debug, Clone, Copy, PartialEq, Eq, Structural)]
pub struct SemanticToken {
    pub delta_line: u32,
    pub delta_start: u32,
    pub length: u32,
    pub token_type: u32,
    pub token_modifiers_bitset: u32,
}

/// The packed form of tokens `s`, the one before them at (`pl`, `pc`):
/// the line relative to the previous token's line, the start relative to
/// the previous token's start on the same line, absolute on a new line.
pub open spec fn delta_encode(s: Seq<RawToken>, pl: u32, pc: u32) -> Seq<SemanticToken>
    decreases s.len(),
{
    if s.len() == 0 {
        seq![]
    } else {
        let t = s[0];
        seq![
            SemanticToken {
                delta_line: (t.line - pl) as u32,
                delta_start: if t.line == pl {
                    (t.start_char - pc) as u32
                } else {
                    t.start_char
                },
                length: t.length,
                token_type: t.token_type,
                token_modifiers_bitset: t.modifier_bits,
            },
        ] + delta_encode(s.drop_first(), t.line, t.start_char)
    }
}

/// The absolute positions read back from packed tokens, starting from
/// (`pl`, `pc`).
pub open spec fn delta_decode(d: Seq<SemanticToken>, pl: int, pc: int) -> Seq<(int, int)>
    decreases d.len(),
{
    if d.len() == 0 {
        seq![]
    } else {
        let l = pl + d[0].delta_line;
        let c = if d[0].delta_line == 0 {
            pc + d[0].delta_start
        } else {
            d[0].delta_start as int
        };
        seq![(l, c)] + delta_decode(d.drop_first(), l, c)
    }
}

pub open spec fn positions(s: Seq<RawToken>) -> Seq<(int, int)> {
    s.map_values(|t: RawToken| (t.line as int, t.start_char as int))
}

/// Reading back the packed form of tokens ordered by position, none of
/// them before (`pl`, `pc`), gives their positions.
pub proof fn lemma_delta_roundtrip(s: Seq<RawToken>, pl: u32, pc: u32)
    requires
        tokens_sorted(s),
        s.len() > 0 ==> !starts_before(s[0], RawToken { line: pl, start_char: pc, ..s[0] }),
    ensures
        delta_decode(delta_encode(s, pl, pc), pl as int, pc as int) == positions(s),
    decreases s.len(),
{
    if s.len() > 0 {
        let t = s[0];
        let rest = s.drop_first();
        assert(tokens_sorted(rest));
        if rest.len() > 0 {
            assert(!starts_before(s[1], s[0]));
        }
        lemma_delta_roundtrip(rest, t.line, t.start_char);
        assert(delta_encode(s, pl, pc).drop_first() =~= delta_encode(rest, t.line, t.start_char));
        assert(positions(s) =~= seq![(t.line as int, t.start_char as int)] + positions(rest));
    }
}

/// A token covers at least one byte and has a type of the legend.
pub open spec fn token_ok(t: RawToken) -> bool {
    t.length > 0 && t.token_type < token_type_names().len()
}

pub open spec fn all_ok(s: Seq<RawToken>) -> bool {
    forall|k: int| 0 <= k < s.len() ==> token_ok(#[trigger] s[k])
}

proof fn lemma_all_ok_concat(a: Seq<RawToken>, b: Seq<RawToken>)
    requires
        all_ok(a),
        all_ok(b),
    ensures
        all_ok(a + b),
{
    assert forall|k: int| 0 <= k < (a + b).len() implies token_ok(#[trigger] (a + b)[k]) by {
        if k < a.len() {
            assert((a + b)[k] == a[k]);
        } else {
            assert((a + b)[k] == b[k - a.len()]);
        }
    }
}

proof fn lemma_nonempty_ok(s: Seq<RawToken>, tt: u32)
    requires
        tt < token_type_names().len(),
        forall|k: int| 0 <= k < s.len() ==> (#[trigger] s[k]).token_type == tt,
    ensures
        all_ok(nonempty_tokens(s)),
    decreases s.len(),
{
    if s.len() > 0 {
        let r = s.drop_last();
        assert forall|k: int| 0 <= k < r.len() implies (#[trigger] r[k]).token_type == tt by {
            assert(r[k] == s[k]);
        }
        lemma_nonempty_ok(r, tt);
        if s.last().length > 0 {
            let q = nonempty_tokens(r);
            assert forall|k: int| 0 <= k < q.push(s.last()).len() implies token_ok(#[trigger] q.push(s.last())[k]) by {
                if k < q.len() {
                    assert(q.push(s.last())[k] == q[k]);
                }
            }
        }
    }
}

proof fn lemma_type_index_bound(ty: Seq<char>)
    ensures
        type_index(ty) matches Some(tt) ==> tt < token_type_names().len(),
{
    if exists|i: int| 0 <= i < token_type_names().len() && token_type_names()[i] == ty {
        let w = choose|i: int| 0 <= i < token_type_names().len() && token_type_names()[i] == ty;
        assert(0 <= w < token_type_names().len());
    }
}

proof fn lemma_node_token_seq_ok(src: Seq<u8>, sp: NodeSpan, ty: Seq<char>, mods: Seq<u32>)
    ensures
        all_ok(node_token_seq(src, sp, ty, mods)),
{
    lemma_type_index_bound(ty);
    match type_index(ty) {
        None => {},
        Some(tt) => {
            assert(tt < token_type_names().len());
            if sp.start_row == sp.end_row {
                let one = seq![
                    RawToken {
                        line: sp.start_row as u32,
                        start_char: sp.start_col as u32,
                        length: (node_bytes(src, sp).len() as usize) as u32,
                        token_type: tt,
                        modifier_bits: mod_bits(mods),
                    },
                ];
                lemma_nonempty_ok(one, tt);
            } else {
                lemma_nonempty_ok(line_tokens(src, sp, tt, mods), tt);
            }
        },
    }
}

proof fn lemma_field_tokens_ok(t: SyntaxTree, src: Seq<u8>, i: int, field: Seq<char>, ty: Seq<char>, mods: Seq<u32>)
    ensures
        all_ok(field_tokens(t, src, i, field, ty, mods)),
{
    match t.field_child(i, field) {
        Some(c) => lemma_node_token_seq_ok(src, t.span(c), ty, mods),
        None => {},
    }
}

proof fn lemma_property_name_tokens_ok(t: SyntaxTree, src: Seq<u8>, i: int, j: int)
    ensures
        all_ok(property_name_tokens(t, src, i, j)),
    decreases t.child_count(i) - j,
{
    if 0 <= j < t.child_count(i) {
        let c = t.child(i, j);
        lemma_field_tokens_ok(t, src, c, "declarator"@, "property"@, seq![0u32]);
        lemma_property_name_tokens_ok(t, src, i, j + 1);
        lemma_all_ok_concat(
            if t.kind(c) == "property_declarator"@ {
                field_tokens(t, src, c, "declarator"@, "property"@, seq![0u32])
            } else {
                seq![]
            },
            property_name_tokens(t, src, i, j + 1),
        );
    }
}

proof fn lemma_node_tokens_ok(t: SyntaxTree, src: Seq<u8>, i: int)
    ensures
        all_ok(node_tokens(t, src, i)),
    decreases t.depth_left(i), t.child_count(i) + 1,
{
    if t.wf() && 0 <= i < t.nodes.len() {
        let k = t.kind(i);
        let sp = t.span(i);
        lemma_child_tokens_ok(t, src, i, 0);
        let kids = child_tokens(t, src, i, 0);
        lemma_node_token_seq_ok(src, sp, "keyword"@, seq![]);
        lemma_node_token_seq_ok(src, sp, "type"@, seq![]);
        lemma_node_token_seq_ok(src, sp, "string"@, seq![]);
        lemma_node_token_seq_ok(src, sp, "number"@, seq![]);
        lemma_node_token_seq_ok(src, sp, "comment"@, seq![]);
        lemma_node_token_seq_ok(src, sp, "variable"@, seq![]);
        lemma_field_tokens_ok(t, src, i, "name"@, "namespace"@, seq![0u32, 1u32]);
        lemma_field_tokens_ok(t, src, i, "selector"@, "method"@, seq![0u32]);
        lemma_field_tokens_ok(t, src, i, "selector"@, "method"@, seq![0u32, 1u32]);
        lemma_field_tokens_ok(t, src, i, "declarator"@, "parameter"@, seq![0u32]);
        lemma_field_tokens_ok(t, src, i, "declarator"@, "function"@, seq![0u32]);
        lemma_field_tokens_ok(t, src, i, "name"@, "macro"@, seq![0u32, 1u32]);
        lemma_field_tokens_ok(t, src, i, "directive"@, "keyword"@, seq![]);
        lemma_property_name_tokens_ok(t, src, i, 0);
        lemma_all_ok_concat(node_token_seq(src, sp, "keyword"@, seq![]), kids);
        lemma_all_ok_concat(field_tokens(t, src, i, "name"@, "namespace"@, seq![0u32, 1u32]), kids);
        lemma_all_ok_concat(field_tokens(t, src, i, "selector"@, "method"@, seq![0u32]), kids);
        lemma_all_ok_concat(field_tokens(t, src, i, "selector"@, "method"@, seq![0u32, 1u32]), kids);
        lemma_all_ok_concat(field_tokens(t, src, i, "declarator"@, "parameter"@, seq![0u32]), kids);
        lemma_all_ok_concat(property_name_tokens(t, src, i, 0), kids);
        lemma_all_ok_concat(field_tokens(t, src, i, "declarator"@, "function"@, seq![0u32]), kids);
        lemma_all_ok_concat(field_tokens(t, src, i, "name"@, "macro"@, seq![0u32, 1u32]), kids);
        lemma_all_ok_concat(field_tokens(t, src, i, "directive"@, "keyword"@, seq![]), kids);
    }
}

proof fn lemma_child_tokens_ok(t: SyntaxTree, src: Seq<u8>, i: int, j: int)
    ensures
        all_ok(child_tokens(t, src, i, j)),
    decreases t.depth_left(i), t.child_count(i) - j,
{
    if t.wf() && 0 <= i < t.nodes.len() && 0 <= j < t.child_count(i) {
        let c = t.child(i, j);
        assert(i < t.children@[i]@[j] < t.nodes.len());
        lemma_child_tokens_ok(t, src, i, j + 1);
        if handled_child(t, i) == Some(c) {
            lemma_all_ok_concat(seq![], child_tokens(t, src, i, j + 1));
        } else {
            lemma_node_tokens_ok(t, src, c);
            lemma_all_ok_concat(node_tokens(t, src, c), child_tokens(t, src, i, j + 1));
        }
    }
}

proof fn lemma_sort_ok(s: Seq<RawToken>)
    requires
        all_ok(s),
    ensures
        all_ok(sort_tokens(s)),
    decreases s.len(),
{
    if s.len() > 0 {
        let r = s.drop_first();
        assert forall|k: int| 0 <= k < r.len() implies token_ok(#[trigger] r[k]) by {
            assert(r[k] == s[k + 1]);
        }
        lemma_sort_ok(r);
        let q = sort_tokens(r);
        let x = s[0];
        assert(token_ok(x));
        lemma_first_not_before(q, x, 0);
        let p = first_not_before(q, x, 0);
        let a = q.take(p).push(x);
        assert forall|k: int| 0 <= k < a.len() implies token_ok(#[trigger] a[k]) by {
            if k < p {
                assert(a[k] == q[k]);
            }
        }
        assert forall|k: int| 0 <= k < q.skip(p).len() implies token_ok(#[trigger] q.skip(p)[k]) by {
            assert(q.skip(p)[k] == q[k + p]);
        }
        lemma_all_ok_concat(a, q.skip(p));
    }
}

proof fn lemma_encode_ok(s: Seq<RawToken>, pl: u32, pc: u32)
    requires
        all_ok(s),
    ensures
        forall|k: int|
            0 <= k < delta_encode(s, pl, pc).len() ==> (#[trigger] delta_encode(s, pl, pc)[k]).length > 0
                && delta_encode(s, pl, pc)[k].token_type < token_type_names().len(),
        delta_encode(s, pl, pc).len() == s.len(),
    decreases s.len(),
{
    if s.len() > 0 {
        let r = s.drop_first();
        assert forall|k: int| 0 <= k < r.len() implies token_ok(#[trigger] r[k]) by {
            assert(r[k] == s[k + 1]);
        }
        assert(token_ok(s[0]));
        lemma_encode_ok(r, s[0].line, s[0].start_char);
    }
}

proof fn lemma_type_index_names(ty: Seq<char>)
    ensures
        type_index(ty) matches Some(tt) ==> tt < token_type_names().len() && token_type_names()[tt as int] == ty,
        (exists|i: int| 0 <= i < token_type_names().len() && token_type_names()[i] == ty) ==> type_index(ty) is Some,
{
    if exists|i: int| 0 <= i < token_type_names().len() && token_type_names()[i] == ty {
        let w = choose|i: int| 0 <= i < token_type_names().len() && token_type_names()[i] == ty;
        assert(0 <= w < token_type_names().len());
    }
}

proof fn lemma_nonempty_type(s: Seq<RawToken>, tt: u32)
    requires
        forall|k: int| 0 <= k < s.len() ==> (#[trigger] s[k]).token_type == tt,
    ensures
        forall|k: int| 0 <= k < nonempty_tokens(s).len() ==> (#[trigger] nonempty_tokens(s)[k]).token_type == tt,
    decreases s.len(),
{
    if s.len() > 0 {
        let r = s.drop_last();
        assert forall|k: int| 0 <= k < r.len() implies (#[trigger] r[k]).token_type == tt by {
            assert(r[k] == s[k]);
        }
        lemma_nonempty_type(r, tt);
        let q = nonempty_tokens(r);
        if s.last().length > 0 {
            assert forall|k: int| 0 <= k < q.push(s.last()).len() implies (#[trigger] q.push(s.last())[k]).token_type
                == tt by {
                if k < q.len() {
                    assert(q.push(s.last())[k] == q[k]);
                }
            }
        }
    }
}

/// The tokens a node gets for the type `ty` all have that type of the
/// legend, when `ty` is one.
proof fn lemma_node_token_seq_type(src: Seq<u8>, sp: NodeSpan, ty: Seq<char>, mods: Seq<u32>, w: int)
    requires
        0 <= w < token_type_names().len(),
        token_type_names()[w] == ty,
    ensures
        type_index(ty) is Some,
        token_type_names()[type_index(ty)->0 as int] == ty,
        forall|k: int|
            0 <= k < node_token_seq(src, sp, ty, mods).len() ==> (#[trigger] node_token_seq(src, sp, ty, mods)[k]).token_type
                == type_index(ty)->0,
{
    lemma_type_index_names(ty);
    assert(type_index(ty) is Some);
    let tt = type_index(ty)->0;
    if sp.start_row == sp.end_row {
        let one = seq![
            RawToken {
                line: sp.start_row as u32,
                start_char: sp.start_col as u32,
                length: (node_bytes(src, sp).len() as usize) as u32,
                token_type: tt,
                modifier_bits: mod_bits(mods),
            },
        ];
        lemma_nonempty_type(one, tt);
    } else {
        lemma_nonempty_type(line_tokens(src, sp, tt, mods), tt);
    }
}

/// The tokens of a node that the walk gives one token type `ty` of the
/// legend (index `w`), with no modifiers.
proof fn lemma_leaf_tokens(t: SyntaxTree, src: Seq<u8>, i: int, ty: Seq<char>, w: int)
    requires
        0 <= w < token_type_names().len(),
        token_type_names()[w] == ty,
        node_tokens(t, src, i) == node_token_seq(src, t.span(i), ty, seq![]),
    ensures
        forall|k: int|
            0 <= k < node_tokens(t, src, i).len() ==> token_type_names()[(#[trigger] node_tokens(t, src, i)[k]).token_type as int]
                == ty,
        t.span(i).start_row == t.span(i).end_row && 0 < node_bytes(src, t.span(i)).len() < 0x1_0000_0000 ==> (
        node_tokens(t, src, i).len() == 1 && node_tokens(t, src, i)[0].line == t.span(i).start_row as u32
            && node_tokens(t, src, i)[0].start_char == t.span(i).start_col as u32 && node_tokens(t, src, i)[0].length
            == node_bytes(src, t.span(i)).len()),
{
    let sp = t.span(i);
    lemma_node_token_seq_type(src, sp, ty, seq![], w);
    let tt = type_index(ty)->0;
    if sp.start_row == sp.end_row && 0 < node_bytes(src, sp).len() < 0x1_0000_0000 {
        let x = RawToken {
            line: sp.start_row as u32,
            start_char: sp.start_col as u32,
            length: (node_bytes(src, sp).len() as usize) as u32,
            token_type: tt,
            modifier_bits: mod_bits(seq![]),
        };
        assert(x.length > 0);
        let one = seq![x];
        assert(nonempty_tokens(Seq::<RawToken>::empty()) == Seq::<RawToken>::empty());
        assert(one.drop_last() =~= Seq::<RawToken>::empty());
        assert(one.last() == x);
        assert(nonempty_tokens(one) =~= seq![x]);
    }
}

proof fn lemma_leaf_kind_facts(k: Seq<char>)
    requires
        k == "number_literal"@ || k == "string_literal"@ || k == "comment"@ || k == "identifier"@ || k
            == "type_identifier"@,
    ensures
        !keyword_kinds().contains(k),
        !is_decl_block_kind(k),
        k != "method_declaration"@,
        k != "method_definition"@,
        k != "parameter_declaration"@,
        k != "property_declaration"@,
        k != "function_declarator"@,
        k != "preproc_def"@,
        k != "preproc_function_def"@,
        k != "preproc_call"@,
        k != "string_expression"@,
        k == "number_literal"@ ==> k != "type_identifier"@ && k != "string_literal"@,
        k == "comment"@ ==> k != "type_identifier"@ && k != "string_literal"@ && k != "number_literal"@,
        k == "identifier"@ ==> k != "type_identifier"@ && k != "string_literal"@ && k != "number_literal"@ && k
            != "comment"@,
        k == "string_literal"@ ==> k != "type_identifier"@,
{
    reveal_strlit("number_literal");
    reveal_strlit("number");
    reveal_strlit("string_literal");
    reveal_strlit("string");
    reveal_strlit("comment");
    reveal_strlit("identifier");
    reveal_strlit("variable");
    reveal_strlit("type");
    reveal_strlit("@interface");
    reveal_strlit("@implementation");
    reveal_strlit("@protocol");
    reveal_strlit("@end");
    reveal_strlit("@property");
    reveal_strlit("@synthesize");
    reveal_strlit("@dynamic");
    reveal_strlit("@selector");
    reveal_strlit("@encode");
    reveal_strlit("@try");
    reveal_strlit("@catch");
    reveal_strlit("@finally");
    reveal_strlit("@throw");
    reveal_strlit("@autoreleasepool");
    reveal_strlit("@class");
    reveal_strlit("in");
    reveal_strlit("self");
    reveal_strlit("super");
    reveal_strlit("nil");
    reveal_strlit("YES");
    reveal_strlit("NO");
    reveal_strlit("true");
    reveal_strlit("false");
    reveal_strlit("NULL");
    reveal_strlit("id");
    reveal_strlit("Class");
    reveal_strlit("SEL");
    reveal_strlit("IMP");
    reveal_strlit("BOOL");
    reveal_strlit("class_interface");
    reveal_strlit("class_implementation");
    reveal_strlit("category_interface");
    reveal_strlit("category_implementation");
    reveal_strlit("protocol_declaration");
    reveal_strlit("method_declaration");
    reveal_strlit("method_definition");
    reveal_strlit("parameter_declaration");
    reveal_strlit("property_declaration");
    reveal_strlit("type_identifier");
    reveal_strlit("function_declarator");
    reveal_strlit("preproc_def");
    reveal_strlit("preproc_function_def");
    reveal_strlit("preproc_call");
    reveal_strlit("string_expression");
    let ks = keyword_kinds();
    assert forall|j: int| 0 <= j < ks.len() implies ks[j] != k by {
        assert(ks[j].len() != k.len() || ks[j][0] != k[0]);
    }
    assert(k != "class_interface"@) by {
        assert("class_interface"@.len() != k.len() || "class_interface"@[0] != k[0]);
    }
    assert(k != "class_implementation"@) by {
        assert("class_implementation"@.len() != k.len());
    }
    assert(k != "category_interface"@) by {
        assert("category_interface"@.len() != k.len());
    }
    assert(k != "category_implementation"@) by {
        assert("category_implementation"@.len() != k.len());
    }
    assert(k != "protocol_declaration"@) by {
        assert("protocol_declaration"@.len() != k.len());
    }
    assert(k != "method_definition"@) by {
        if k.len() == 17 {
            assert(k == "method_definition"@ ==> false);
        }
    }
    if k == "number_literal"@ {
        assert(k[0] != "string_literal"@[0]);
    }
    if k == "identifier"@ {
        assert(k[0] != "type_identifier"@[0]);
    }
    if k == "string_literal"@ {
        assert(k[0] != "type_identifier"@[0]);
    }
    assert(k != "string_expression"@) by {
        assert("string_expression"@.len() == 17);
    }
    assert(k != "preproc_function_def"@) by {
        assert("preproc_function_def"@.len() == 20);
    }
    assert(k != "function_declarator"@) by {
        assert("function_declarator"@.len() == 19);
    }
}

/// A number literal is highlighted as a number: every token that the walk
/// gives the subtree of a `number_literal` node has the legend's type
/// `number`; one on a single line gives exactly one token, at the
/// literal's position and as long as its bytes.
pub proof fn lemma_number_literal_tokens(t: SyntaxTree, src: Seq<u8>, i: int)
    requires
        t.wf(),
        0 <= i < t.nodes.len(),
        t.kind(i) == "number_literal"@,
    ensures
        forall|k: int|
            0 <= k < node_tokens(t, src, i).len() ==> token_type_names()[(#[trigger] node_tokens(t, src, i)[k]).token_type as int]
                == "number"@,
        t.span(i).start_row == t.span(i).end_row && 0 < node_bytes(src, t.span(i)).len() < 0x1_0000_0000 ==> (
        node_tokens(t, src, i).len() == 1 && node_tokens(t, src, i)[0].line == t.span(i).start_row as u32
            && node_tokens(t, src, i)[0].start_char == t.span(i).start_col as u32 && node_tokens(t, src, i)[0].length
            == node_bytes(src, t.span(i)).len()),
{
    lemma_leaf_kind_facts(t.kind(i));
    assert(node_tokens(t, src, i) == node_token_seq(src, t.span(i), "number"@, seq![]));
    lemma_leaf_tokens(t, src, i, "number"@, 9);
}

/// A string literal is highlighted as a string, in the same way (see
/// `lemma_number_literal_tokens`).
pub proof fn lemma_string_literal_tokens(t: SyntaxTree, src: Seq<u8>, i: int)
    requires
        t.wf(),
        0 <= i < t.nodes.len(),
        t.kind(i) == "string_literal"@,
    ensures
        forall|k: int|
            0 <= k < node_tokens(t, src, i).len() ==> token_type_names()[(#[trigger] node_tokens(t, src, i)[k]).token_type as int]
                == "string"@,
        t.span(i).start_row == t.span(i).end_row && 0 < node_bytes(src, t.span(i)).len() < 0x1_0000_0000 ==> (
        node_tokens(t, src, i).len() == 1 && node_tokens(t, src, i)[0].line == t.span(i).start_row as u32
            && node_tokens(t, src, i)[0].start_char == t.span(i).start_col as u32 && node_tokens(t, src, i)[0].length
            == node_bytes(src, t.span(i)).len()),
{
    lemma_leaf_kind_facts(t.kind(i));
    assert(node_tokens(t, src, i) == node_token_seq(src, t.span(i), "string"@, seq![]));
    lemma_leaf_tokens(t, src, i, "string"@, 8);
}

/// A comment is highlighted as a comment: every token of a `comment` node
/// has the legend's type `comment`.
pub proof fn lemma_comment_tokens(t: SyntaxTree, src: Seq<u8>, i: int)
    requires
        t.wf(),
        0 <= i < t.nodes.len(),
        t.kind(i) == "comment"@,
    ensures
        forall|k: int|
            0 <= k < node_tokens(t, src, i).len() ==> token_type_names()[(#[trigger] node_tokens(t, src, i)[k]).token_type as int]
                == "comment"@,
{
    lemma_leaf_kind_facts(t.kind(i));
    assert(node_tokens(t, src, i) == node_token_seq(src, t.span(i), "comment"@, seq![]));
    lemma_leaf_tokens(t, src, i, "comment"@, 10);
}

/// A type name is highlighted as a type: every token of a
/// `type_identifier` node has the legend's type `type`.
pub proof fn lemma_type_identifier_tokens(t: SyntaxTree, src: Seq<u8>, i: int)
    requires
        t.wf(),
        0 <= i < t.nodes.len(),
        t.kind(i) == "type_identifier"@,
    ensures
        forall|k: int|
            0 <= k < node_tokens(t, src, i).len() ==> token_type_names()[(#[trigger] node_tokens(t, src, i)[k]).token_type as int]
                == "type"@,
{
    lemma_leaf_kind_facts(t.kind(i));
    assert(node_tokens(t, src, i) == node_token_seq(src, t.span(i), "type"@, seq![]));
    lemma_leaf_tokens(t, src, i, "type"@, 6);
}

/// A plain identifier that the walk reaches is highlighted as a variable.
pub proof fn lemma_identifier_tokens(t: SyntaxTree, src: Seq<u8>, i: int)
    requires
        t.wf(),
        0 <= i < t.nodes.len(),
        t.kind(i) == "identifier"@,
    ensures
        forall|k: int|
            0 <= k < node_tokens(t, src, i).len() ==> token_type_names()[(#[trigger] node_tokens(t, src, i)[k]).token_type as int]
                == "variable"@,
{
    lemma_leaf_kind_facts(t.kind(i));
    assert(node_tokens(t, src, i) == node_token_seq(src, t.span(i), "variable"@, seq![]));
    lemma_leaf_tokens(t, src, i, "variable"@, 7);
}

impl TokenCollector {
    /// The tokens ordered by position, delta-encoded into the packed LSP
    /// form.
    pub fn encode(self) -> (out: Vec<SemanticToken>)
        ensures
            out@ == delta_encode(sort_tokens(self.tokens@), 0, 0),
            tokens_sorted(sort_tokens(self.tokens@)),
    {
        let sorted = sort_raw_tokens(self.tokens);
        let ghost ss = sorted@;
        proof {
            lemma_sort_tokens(self.tokens@);
        }
        let mut out: Vec<SemanticToken> = Vec::new();
        let mut prev_line: u32 = 0;
        let mut prev_char: u32 = 0;
        let mut i: usize = 0;
        assert(ss.skip(0) =~= ss);
        while i < sorted.len()
            invariant
                i <= sorted.len(),
                ss == sorted@,
                tokens_sorted(ss),
                i > 0 ==> prev_line == ss[i - 1].line && prev_char == ss[i - 1].start_char,
                i == 0 ==> prev_line == 0 && prev_char == 0,
                out@ + delta_encode(ss.skip(i as int), prev_line, prev_char) == delta_encode(ss, 0, 0),
            decreases sorted.len() - i,
        {
            let tok = sorted[i];
            if i > 0 {
                assert(!starts_before(ss[i as int], ss[i - 1]));
            }
            let delta_line = tok.line - prev_line;
            let delta_start = if delta_line == 0 {
                tok.start_char - prev_char
            } else {
                tok.start_char
            };
            let st = SemanticToken {
                delta_line,
                delta_start,
                length: tok.length,
                token_type: tok.token_type,
                token_modifiers_bitset: tok.modifier_bits,
            };
            assert(ss.skip(i as int).drop_first() =~= ss.skip(i + 1));
            assert(delta_encode(ss.skip(i as int), prev_line, prev_char) == seq![st] + delta_encode(
                ss.skip(i + 1),
                tok.line,
                tok.start_char,
            ));
            out.push(st);
            prev_line = tok.line;
            prev_char = tok.start_char;
            i = i + 1;
        }
        assert(ss.skip(i as int) =~= Seq::<RawToken>::empty());
        assert(ss.skip(0) =~= ss);
        out
    }
}

/// `v` in a stable order by position.
fn sort_raw_tokens(v: Vec<RawToken>) -> (r: Vec<RawToken>)
    ensures
        r@ == sort_tokens(v@),
{
    let ghost orig = v@;
    let mut v = v;
    let mut r: Vec<RawToken> = Vec::new();
    assert(orig.skip(v.len() as int) =~= Seq::<RawToken>::empty());
    while v.len() > 0
        invariant
            v.len() <= orig.len(),
            v@ == orig.take(v.len() as int),
            r@ == sort_tokens(orig.skip(v.len() as int)),
        decreases v.len(),
    {
        let ghost n = v.len() as int;
        let x = v.pop().unwrap();
        assert(v@ =~= orig.take(n - 1));
        assert(orig.skip(n - 1).drop_first() =~= orig.skip(n));
        let ghost rv = r@;
        let mut p: usize = 0;
        while p < r.len() && starts_before_exec(r[p], x)
            invariant
                p <= r.len(),
                rv == r@,
                first_not_before(rv, x, 0) == first_not_before(rv, x, p as int),
            decreases r.len() - p,
        {
            p = p + 1;
        }
        r.insert(p, x);
        assert(r@ =~= rv.take(p as int).push(x) + rv.skip(p as int));
    }
    assert(orig.skip(0) =~= orig);
    r
}

fn starts_before_exec(a: RawToken, b: RawToken) -> (r: bool)
    ensures
        r == starts_before(a, b),
{
    a.line < b.line || (a.line == b.line && a.start_char < b.start_char)
}

/// The packed semantic tokens of a document.
pub struct SemanticTokens {
    pub result_id: Option<String>,
    pub data: Vec<SemanticToken>,
}

/// The semantic tokens of `source` with syntax tree `t`: every token of
/// the walk, ordered by position and delta-encoded.
pub fn semantic_tokens_of(t: &SyntaxTree, source: &str) -> (r: SemanticTokens)
    requires
        t.wf(),
        t.nodes.len() >= 1,
    ensures
        r.result_id is None,
        r.data@ == delta_encode(sort_tokens(node_tokens(*t, source.spec_bytes(), 0)), 0, 0),
        delta_decode(r.data@, 0, 0) == positions(sort_tokens(node_tokens(*t, source.spec_bytes(), 0))),
        forall|k: int|
            0 <= k < r.data.len() ==> (#[trigger] r.data@[k]).length > 0 && r.data@[k].token_type
                < token_type_names().len(),
{
    let mut collector = TokenCollector::new();
    walk_node(t, source, 0, &mut collector);
    assert(collector.tokens@ =~= node_tokens(*t, source.spec_bytes(), 0));
    let ghost toks = collector.tokens@;
    let data = collector.encode();
    proof {
        let s = sort_tokens(toks);
        if s.len() > 0 {
            assert(!starts_before(s[0], RawToken { line: 0, start_char: 0, ..s[0] }));
        }
        lemma_delta_roundtrip(s, 0, 0);
        lemma_node_tokens_ok(*t, source.spec_bytes(), 0);
        lemma_sort_ok(toks);
        lemma_encode_ok(s, 0, 0);
    }
    SemanticTokens { result_id: None, data }
}

/// Compute full semantic tokens for a parsed Objective-C file: every
/// token covers at least one byte and has a type of the legend.
pub fn semantic_tokens_full(file: &ParsedFile) -> (r: SemanticTokens)
    ensures
        r.result_id is None,
        forall|k: int|
            0 <= k < r.data.len() ==> (#[trigger] r.data@[k]).length > 0 && r.data@[k].token_type
                < token_type_names().len(),
        exists|t: SyntaxTree|
            t.wf() && is_tree_of(t, file.text()) && #[trigger] delta_encode(sort_tokens(node_tokens(t, encode_utf8(file.text()), 0)), 0, 0)
                == r.data@,
{
    let t = file.syntax();
    semantic_tokens_of(&t, file.source())
}

} // verus!
