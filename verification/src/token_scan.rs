//! Finding a symbol from the tokens around a click, when libclang's
//! cursor lookup gives only a coarse container.
//!
//! The server tokenizes the source with libclang and hands over each
//! token's kind, spelling and extent; the choices made on them — which
//! token was clicked, which `[` opens the message it belongs to, which
//! identifier is the receiver, which twin token to borrow a resolution
//! from — are made here.

use vstd::prelude::*;

use crate::cursor_kinds::{
    clang_position, spelling_pos, CX_CURSOR_OBJC_CLASS_METHOD_DECL, CX_CURSOR_OBJC_CLASS_REF,
    CX_CURSOR_OBJC_INSTANCE_METHOD_DECL, CX_CURSOR_OBJC_INTERFACE_DECL, CX_TOKEN_IDENTIFIER,
    CX_TOKEN_PUNCTUATION,
};
use crate::lsp::Range;
use crate::text::{append_str, starts_with, str_eq, str_starts_with, to_owned_string};

verus! {

/// A libclang token: kind, spelling, and extent (1-based line and
/// columns; the end column is that of the end of the extent).
#[derive(Debug, Clone)]
pub struct ScanToken {
    pub kind: u32,
    pub spelling: String,
    /// The token lies in the file that was clicked.
    pub in_file: bool,
    pub line: u32,
    pub col: u32,
    pub end_col: u32,
}

/// Whether a token covers (`line`, `col`) of the clicked file.
pub open spec fn covers(t: ScanToken, line: u32, col: u32) -> bool {
    t.in_file && t.line == line && t.col <= col && col <= t.end_col
}

pub open spec fn is_ident(t: ScanToken) -> bool {
    t.kind == CX_TOKEN_IDENTIFIER
}

pub open spec fn is_punct(t: ScanToken, p: Seq<char>) -> bool {
    t.kind == CX_TOKEN_PUNCTUATION && t.spelling@ == p
}

/// The first identifier from `j` on that covers (`line`, `col`), with a
/// non-empty spelling when `need_spelling`.
pub open spec fn identifier_at_from(toks: Seq<ScanToken>, line: u32, col: u32, need_spelling: bool, j: int) -> Option<int>
    decreases toks.len() - j,
{
    if j < 0 || j >= toks.len() {
        None
    } else if covers(toks[j], line, col) && is_ident(toks[j]) && (!need_spelling || toks[j].spelling@.len() > 0) {
        Some(j)
    } else {
        identifier_at_from(toks, line, col, need_spelling, j + 1)
    }
}

/// The index of the first identifier token that covers (`line`, `col`)
/// in the clicked file (with a non-empty spelling when `need_spelling`).
pub fn identifier_at(toks: &Vec<ScanToken>, line: u32, col: u32, need_spelling: bool) -> (r: Option<usize>)
    ensures
        match r {
            Some(k) => identifier_at_from(toks@, line, col, need_spelling, 0) == Some(k as int),
            None => identifier_at_from(toks@, line, col, need_spelling, 0) is None,
        },
{
    let mut j: usize = 0;
    while j < toks.len()
        invariant
            j <= toks.len(),
            identifier_at_from(toks@, line, col, need_spelling, 0) == identifier_at_from(toks@, line, col, need_spelling, j as int),
        decreases toks.len() - j,
    {
        let t = &toks[j];
        if t.in_file && t.line == line && t.col <= col && col <= t.end_col && t.kind == CX_TOKEN_IDENTIFIER
            && (!need_spelling || !t.spelling.as_str().is_empty()) {
            return Some(j);
        }
        j = j + 1;
    }
    None
}

/// The first token from `j` on in the clicked file spelled `sp` that
/// starts on `line` and covers `col`.
pub open spec fn spelled_at_from(toks: Seq<ScanToken>, sp: Seq<char>, line: u32, col: u32, j: int) -> Option<int>
    decreases toks.len() - j,
{
    if j < 0 || j >= toks.len() {
        None
    } else if covers(toks[j], line, col) && toks[j].spelling@ == sp {
        Some(j)
    } else {
        spelled_at_from(toks, sp, line, col, j + 1)
    }
}

/// The index of the first token spelled `sp` that covers (`line`, `col`)
/// in the clicked file.
pub fn spelled_at(toks: &Vec<ScanToken>, sp: &str, line: u32, col: u32) -> (r: Option<usize>)
    ensures
        match r {
            Some(k) => spelled_at_from(toks@, sp@, line, col, 0) == Some(k as int),
            None => spelled_at_from(toks@, sp@, line, col, 0) is None,
        },
{
    let mut j: usize = 0;
    while j < toks.len()
        invariant
            j <= toks.len(),
            spelled_at_from(toks@, sp@, line, col, 0) == spelled_at_from(toks@, sp@, line, col, j as int),
        decreases toks.len() - j,
    {
        let t = &toks[j];
        if t.in_file && t.line == line && t.col <= col && col <= t.end_col && str_eq(t.spelling.as_str(), sp) {
            return Some(j);
        }
        j = j + 1;
    }
    None
}

/// The first identifier from `j` on spelled `sp` whose annotation
/// resolves (`resolved`), and, when `on_other_line` is given, that does
/// not start on that line.
pub open spec fn twin_from(
    toks: Seq<ScanToken>,
    sp: Seq<char>,
    resolved: Seq<bool>,
    other_line: Option<u32>,
    j: int,
) -> Option<int>
    decreases toks.len() - j,
{
    if j < 0 || j >= toks.len() || j >= resolved.len() {
        None
    } else if is_ident(toks[j]) && toks[j].spelling@ == sp && resolved[j] && (match other_line {
        Some(l) => toks[j].line != l,
        None => true,
    }) {
        Some(j)
    } else {
        twin_from(toks, sp, resolved, other_line, j + 1)
    }
}

/// The index of the first identifier spelled `sp` whose annotated cursor
/// resolves to a declaration, on a line other than `other_line` when that
/// is given.
pub fn resolved_twin(toks: &Vec<ScanToken>, sp: &str, resolved: &Vec<bool>, other_line: Option<u32>) -> (r: Option<usize>)
    ensures
        match r {
            Some(k) => twin_from(toks@, sp@, resolved@, other_line, 0) == Some(k as int),
            None => twin_from(toks@, sp@, resolved@, other_line, 0) is None,
        },
{
    let mut j: usize = 0;
    while j < toks.len() && j < resolved.len()
        invariant
            j <= toks.len(),
            twin_from(toks@, sp@, resolved@, other_line, 0) == twin_from(toks@, sp@, resolved@, other_line, j as int),
        decreases toks.len() - j,
    {
        let t = &toks[j];
        let line_ok = match other_line {
            Some(l) => t.line != l,
            None => true,
        };
        if t.kind == CX_TOKEN_IDENTIFIER && str_eq(t.spelling.as_str(), sp) && resolved[j] && line_ok {
            return Some(j);
        }
        j = j + 1;
    }
    None
}

/// Token `j` is an identifier spelled `sp` whose annotation resolves, not
/// starting on `other_line` when that is given.
pub open spec fn is_twin(toks: Seq<ScanToken>, sp: Seq<char>, resolved: Seq<bool>, other_line: Option<u32>, j: int) -> bool {
    &&& 0 <= j < toks.len()
    &&& j < resolved.len()
    &&& is_ident(toks[j])
    &&& toks[j].spelling@ == sp
    &&& resolved[j]
    &&& match other_line {
        Some(l) => toks[j].line != l,
        None => true,
    }
}

/// The indices of all identifiers spelled `sp` whose annotated cursor
/// resolves (on a line other than `other_line` when that is given), in
/// increasing order: the twins tried one after the other.
pub fn resolved_twins(toks: &Vec<ScanToken>, sp: &str, resolved: &Vec<bool>, other_line: Option<u32>) -> (r: Vec<usize>)
    ensures
        forall|a: int| 0 <= a < r.len() ==> is_twin(toks@, sp@, resolved@, other_line, #[trigger] r@[a] as int),
        forall|a: int, b: int| 0 <= a < b < r.len() ==> (#[trigger] r@[a]) < (#[trigger] r@[b]),
        forall|j: int| is_twin(toks@, sp@, resolved@, other_line, j) ==> r@.contains(j as usize),
{
    let mut out: Vec<usize> = Vec::new();
    let mut j: usize = 0;
    while j < toks.len()
        invariant
            j <= toks.len(),
            forall|a: int| 0 <= a < out.len() ==> is_twin(toks@, sp@, resolved@, other_line, #[trigger] out@[a] as int),
            forall|a: int| 0 <= a < out.len() ==> (#[trigger] out@[a]) < j,
            forall|a: int, b: int| 0 <= a < b < out.len() ==> (#[trigger] out@[a]) < (#[trigger] out@[b]),
            forall|k: int| 0 <= k < j && is_twin(toks@, sp@, resolved@, other_line, k) ==> out@.contains(k as usize),
        decreases toks.len() - j,
    {
        let t = &toks[j];
        let line_ok = match other_line {
            Some(l) => t.line != l,
            None => true,
        };
        if j < resolved.len() && t.kind == CX_TOKEN_IDENTIFIER && str_eq(t.spelling.as_str(), sp) && resolved[j]
            && line_ok {
            let ghost before = out@;
            out.push(j);
            assert(out@[before.len() as int] == j);
            assert forall|k: int| 0 <= k < j + 1 && is_twin(toks@, sp@, resolved@, other_line, k) implies out@.contains(k as usize) by {
                if k < j {
                    assert(before.contains(k as usize));
                    let a = choose|a: int| 0 <= a < before.len() && before[a] == k as usize;
                    assert(out@[a] == before[a]);
                } else {
                    assert(out@[before.len() as int] == k as usize);
                }
            }
        }
        j = j + 1;
    }
    out
}

/// The first identifier from `j` on spelled `sp` whose annotated cursor
/// refers to a class: an interface declaration or a class reference.
pub open spec fn class_twin_from(toks: Seq<ScanToken>, sp: Seq<char>, ref_kinds: Seq<Option<i32>>, j: int) -> Option<int>
    decreases toks.len() - j,
{
    if j < 0 || j >= toks.len() || j >= ref_kinds.len() {
        None
    } else if is_ident(toks[j]) && toks[j].spelling@ == sp && (ref_kinds[j] == Some(CX_CURSOR_OBJC_INTERFACE_DECL)
        || ref_kinds[j] == Some(CX_CURSOR_OBJC_CLASS_REF)) {
        Some(j)
    } else {
        class_twin_from(toks, sp, ref_kinds, j + 1)
    }
}

/// The index of the first identifier spelled `sp` whose annotated cursor
/// refers (`ref_kinds`: the kind of the referenced cursor, `None` when
/// there is none) to an interface declaration or a class reference.
pub fn class_twin(toks: &Vec<ScanToken>, sp: &str, ref_kinds: &Vec<Option<i32>>) -> (r: Option<usize>)
    ensures
        match r {
            Some(k) => class_twin_from(toks@, sp@, ref_kinds@, 0) == Some(k as int),
            None => class_twin_from(toks@, sp@, ref_kinds@, 0) is None,
        },
{
    let mut j: usize = 0;
    while j < toks.len() && j < ref_kinds.len()
        invariant
            j <= toks.len(),
            class_twin_from(toks@, sp@, ref_kinds@, 0) == class_twin_from(toks@, sp@, ref_kinds@, j as int),
        decreases toks.len() - j,
    {
        let t = &toks[j];
        let k = ref_kinds[j];
        if t.kind == CX_TOKEN_IDENTIFIER && str_eq(t.spelling.as_str(), sp) && (k == Some(CX_CURSOR_OBJC_INTERFACE_DECL)
            || k == Some(CX_CURSOR_OBJC_CLASS_REF)) {
            return Some(j);
        }
        j = j + 1;
    }
    None
}

/// Scanning back from token `i` with `depth` closing brackets to match,
/// the `[` that opens the message: each `]` is matched by the next `[`.
pub open spec fn bracket_from(toks: Seq<ScanToken>, i: int, depth: int) -> Option<int>
    decreases i + 1,
{
    if i < 0 || i >= toks.len() {
        None
    } else if is_punct(toks[i], "]"@) {
        bracket_from(toks, i - 1, depth + 1)
    } else if is_punct(toks[i], "["@) {
        if depth == 0 {
            Some(i)
        } else {
            bracket_from(toks, i - 1, depth - 1)
        }
    } else {
        bracket_from(toks, i - 1, depth)
    }
}

/// The index of the `[` that opens the message containing token `idx`.
pub fn enclosing_bracket(toks: &Vec<ScanToken>, idx: usize) -> (r: Option<usize>)
    requires
        idx <= toks.len(),
    ensures
        match r {
            Some(k) => bracket_from(toks@, idx - 1, 0) == Some(k as int),
            None => bracket_from(toks@, idx - 1, 0) is None,
        },
        r matches Some(b) ==> b < idx && is_punct(toks@[b as int], "["@),
{
    proof {
        reveal_strlit("[");
        reveal_strlit("]");
    }
    let mut depth: u64 = 0;
    let mut i = idx;
    while i > 0
        invariant
            i <= idx <= toks.len(),
            depth <= idx - i,
            bracket_from(toks@, idx - 1, 0) == bracket_from(toks@, i - 1, depth as int),
        decreases i,
    {
        let t = &toks[i - 1];
        if t.kind == CX_TOKEN_PUNCTUATION {
            if str_eq(t.spelling.as_str(), "]") {
                depth = depth + 1;
            } else if str_eq(t.spelling.as_str(), "[") {
                if depth == 0 {
                    return Some(i - 1);
                }
                depth = depth - 1;
            }
        }
        i = i - 1;
    }
    None
}

/// The balance of `(` over `)` among the punctuation tokens `a..b`.
pub open spec fn paren_balance(toks: Seq<ScanToken>, a: int, b: int) -> int
    decreases b - a,
{
    if b <= a {
        0
    } else {
        paren_balance(toks, a, b - 1) + (if is_punct(toks[b - 1], "("@) {
            1int
        } else if is_punct(toks[b - 1], ")"@) {
            -1int
        } else {
            0int
        })
    }
}

/// The balance of `(` over `)` among tokens `a..b`.
pub fn paren_depth(toks: &Vec<ScanToken>, a: usize, b: usize) -> (d: i128)
    requires
        a <= b <= toks.len(),
    ensures
        d == paren_balance(toks@, a as int, b as int),
{
    let mut d: i128 = 0;
    let mut k = a;
    while k < b
        invariant
            a <= k <= b <= toks.len(),
            d == paren_balance(toks@, a as int, k as int),
            -(k - a) <= d <= k - a,
        decreases b - k,
    {
        let t = &toks[k];
        if t.kind == CX_TOKEN_PUNCTUATION {
            if str_eq(t.spelling.as_str(), "(") {
                d = d + 1;
            } else if str_eq(t.spelling.as_str(), ")") {
                d = d - 1;
            }
        }
        k = k + 1;
    }
    d
}

/// The first identifier after token `b`.
pub open spec fn identifier_after_from(toks: Seq<ScanToken>, j: int) -> Option<int>
    decreases toks.len() - j,
{
    if j < 0 || j >= toks.len() {
        None
    } else if is_ident(toks[j]) {
        Some(j)
    } else {
        identifier_after_from(toks, j + 1)
    }
}

/// The receiver of the message whose selector holds token `idx`: the
/// first identifier after the enclosing `[`, when no parenthesis opened
/// after that `[` is still open at `idx` (with `exact`, when the
/// parentheses between balance exactly).
pub open spec fn receiver_of(toks: Seq<ScanToken>, idx: int, exact: bool) -> Option<int> {
    match bracket_from(toks, idx - 1, 0) {
        None => None,
        Some(b) => {
            let d = paren_balance(toks, b, idx);
            if (exact && d != 0) || (!exact && d > 0) {
                None
            } else {
                identifier_after_from(toks, b + 1)
            }
        },
    }
}

/// The index of the receiver identifier of the message whose selector
/// holds token `idx`.
pub fn message_receiver(toks: &Vec<ScanToken>, idx: usize, exact: bool) -> (r: Option<usize>)
    requires
        idx <= toks.len(),
    ensures
        match r {
            Some(k) => receiver_of(toks@, idx as int, exact) == Some(k as int),
            None => receiver_of(toks@, idx as int, exact) is None,
        },
{
    let b = match enclosing_bracket(toks, idx) {
        Some(b) => b,
        None => {
            return None;
        },
    };
    let d = paren_depth(toks, b, idx);
    if (exact && d != 0) || (!exact && d > 0) {
        return None;
    }
    let mut j = b + 1;
    while j < toks.len()
        invariant
            b < j <= toks.len(),
            idx <= toks.len(),
            identifier_after_from(toks@, b + 1) == identifier_after_from(toks@, j as int),
            bracket_from(toks@, idx - 1, 0) == Some(b as int),
            d == paren_balance(toks@, b as int, idx as int),
            !((exact && d != 0) || (!exact && d > 0)),
        decreases toks.len() - j,
    {
        if toks[j].kind == CX_TOKEN_IDENTIFIER {
            assert(identifier_after_from(toks@, j as int) == Some(j as int));
            assert(receiver_of(toks@, idx as int, exact) == identifier_after_from(toks@, b + 1));
            return Some(j);
        }
        j = j + 1;
    }
    None
}

/// The first method (kind, spelling) from `j` on whose selector starts
/// with `prefix`.
pub open spec fn method_with_prefix_from(methods: Seq<(i32, Seq<char>)>, prefix: Seq<char>, j: int) -> Option<int>
    decreases methods.len() - j,
{
    if j < 0 || j >= methods.len() {
        None
    } else if (methods[j].0 == CX_CURSOR_OBJC_INSTANCE_METHOD_DECL || methods[j].0
        == CX_CURSOR_OBJC_CLASS_METHOD_DECL) && starts_with(methods[j].1, prefix) {
        Some(j)
    } else {
        method_with_prefix_from(methods, prefix, j + 1)
    }
}

pub open spec fn member_views(m: Seq<(i32, String)>) -> Seq<(i32, Seq<char>)> {
    m.map_values(|c: (i32, String)| (c.0, c.1@))
}

/// Among the children (kind, spelling) of a class, the index of the
/// first instance or class method whose selector starts with `prefix`.
pub fn method_with_prefix(members: &Vec<(i32, String)>, prefix: &str) -> (r: Option<usize>)
    ensures
        match r {
            Some(k) => method_with_prefix_from(member_views(members@), prefix@, 0) == Some(k as int),
            None => method_with_prefix_from(member_views(members@), prefix@, 0) is None,
        },
{
    let ghost mv = member_views(members@);
    let mut j: usize = 0;
    while j < members.len()
        invariant
            j <= members.len(),
            mv == member_views(members@),
            method_with_prefix_from(mv, prefix@, 0) == method_with_prefix_from(mv, prefix@, j as int),
        decreases members.len() - j,
    {
        let (k, sp) = (&members[j].0, &members[j].1);
        assert(mv[j as int] == (members@[j as int].0, members@[j as int].1@));
        if (*k == CX_CURSOR_OBJC_INSTANCE_METHOD_DECL || *k == CX_CURSOR_OBJC_CLASS_METHOD_DECL)
            && str_starts_with(sp.as_str(), prefix) {
            return Some(j);
        }
        j = j + 1;
    }
    None
}

/// Whether (`line`, `col`) lies within the extent from (`sl`, `sc`) to
/// (`el`, `ec`), both ends included, ordered by line then column.
pub open spec fn within(sl: u32, sc: u32, el: u32, ec: u32, line: u32, col: u32) -> bool {
    ((line, col) == (sl, sc) || line > sl || (line == sl && col > sc)) && (line < el || (line == el && col
        <= ec))
}

/// Whether (`line`, `col`) lies within the extent from (`sl`, `sc`) to
/// (`el`, `ec`), both ends included.
pub fn extent_contains(sl: u32, sc: u32, el: u32, ec: u32, line: u32, col: u32) -> (b: bool)
    ensures
        b == within(sl, sc, el, ec, line, col),
{
    let after_start = line > sl || (line == sl && col >= sc);
    let before_end = line < el || (line == el && col <= ec);
    after_start && before_end
}

/// The range of a declaration at a libclang location, up to the end of
/// its extent when that lies in the same file, zero-width otherwise.
pub fn declaration_range(line: u32, col: u32, end: Option<(u32, u32)>) -> (r: Range)
    ensures
        r.start == clang_position(line, col),
        r.end == (match end {
            Some((el, ec)) => clang_position(el, ec),
            None => clang_position(line, col),
        }),
{
    let start = spelling_pos(line, col);
    let stop = match end {
        Some((el, ec)) => spelling_pos(el, ec),
        None => start,
    };
    Range { start, end: stop }
}

/// The `file://` URI of a file name.
pub fn file_uri(file_name: &str) -> (r: String)
    ensures
        r@ == "file://"@ + file_name@,
{
    let mut r = to_owned_string("file://");
    append_str(&mut r, file_name);
    r
}

/// The cursor that the first fallback of goto-definition takes, from the
/// cursors met walking the container in preorder (a cursor's children are
/// walked only when its extent holds the target), each as (its extent
/// holds the target, it refers to something): the last that does both,
/// which is the deepest.
pub fn deepest_referring(facts: &Vec<(bool, bool)>) -> (r: Option<usize>)
    ensures
        match r {
            Some(i) => i < facts.len() && facts@[i as int].0 && facts@[i as int].1 && forall|j: int|
                i < j < facts.len() ==> !(#[trigger] facts@[j].0 && facts@[j].1),
            None => forall|j: int| 0 <= j < facts.len() ==> !(#[trigger] facts@[j].0 && facts@[j].1),
        },
{
    let mut best: Option<usize> = None;
    let mut i: usize = 0;
    while i < facts.len()
        invariant
            i <= facts.len(),
            match best {
                Some(b) => b < i && facts@[b as int].0 && facts@[b as int].1 && forall|j: int|
                    b < j < i ==> !(#[trigger] facts@[j].0 && facts@[j].1),
                None => forall|j: int| 0 <= j < i ==> !(#[trigger] facts@[j].0 && facts@[j].1),
            },
        decreases facts.len() - i,
    {
        let (holds, refers) = facts[i];
        if holds && refers {
            best = Some(i);
        }
        i = i + 1;
    }
    best
}

/// The message expression that the third fallback of goto-definition
/// takes, from the message expressions with a non-null extent met walking
/// the container in preorder, each as whether its extent holds the
/// target: the first that holds it, else the first of all.
pub fn message_around(holds: &Vec<bool>) -> (r: Option<usize>)
    ensures
        match r {
            Some(i) => i < holds.len() && ((holds@[i as int] && forall|j: int| 0 <= j < i ==> !#[trigger] holds@[j])
                || (i == 0 && forall|j: int| 0 <= j < holds.len() ==> !#[trigger] holds@[j])),
            None => holds.len() == 0,
        },
{
    let mut i: usize = 0;
    while i < holds.len()
        invariant
            i <= holds.len(),
            forall|j: int| 0 <= j < i ==> !#[trigger] holds@[j],
        decreases holds.len() - i,
    {
        if holds[i] {
            return Some(i);
        }
        i = i + 1;
    }
    if holds.len() > 0 {
        Some(0)
    } else {
        None
    }
}

/// The message expression whose method hover shows, from the cursors met
/// walking the container in preorder, each as (it is a message expression
/// with an extent, its extent holds the target, its reference resolves):
/// the first for which all three hold.
pub fn first_message_ref(facts: &Vec<(bool, bool, bool)>) -> (r: Option<usize>)
    ensures
        match r {
            Some(i) => i < facts.len() && facts@[i as int].0 && facts@[i as int].1 && facts@[i as int].2
                && forall|j: int| 0 <= j < i ==> !(#[trigger] facts@[j].0 && facts@[j].1 && facts@[j].2),
            None => forall|j: int| 0 <= j < facts.len() ==> !(#[trigger] facts@[j].0 && facts@[j].1 && facts@[j].2),
        },
{
    let mut i: usize = 0;
    while i < facts.len()
        invariant
            i <= facts.len(),
            forall|j: int| 0 <= j < i ==> !(#[trigger] facts@[j].0 && facts@[j].1 && facts@[j].2),
        decreases facts.len() - i,
    {
        let (message, holds, resolves) = facts[i];
        if message && holds && resolves {
            return Some(i);
        }
        i = i + 1;
    }
    None
}

} // verus!
