//! Completion items from libclang completion strings.
//!
//! The server reads each completion result's cursor kind, its chunks
//! (kind, text) and its brief comment from libclang; the item is built
//! here, with clang placeholders `<#type#>` turned into snippet tab stops
//! `${N:type}`.

use vstd::prelude::*;

use crate::cursor_kinds::{completion_kind, cx_cursor_kind_to_completion_kind, CompletionItemKind};
use crate::stubs::{decimal, decimal_string};
use crate::text::{append_str, append_string, chars_of, ends_with, starts_with, string_of, trim, trim_range};

verus! {

pub const CX_COMPLETION_CHUNK_TYPED_TEXT: i32 = 1;
pub const CX_COMPLETION_CHUNK_TEXT: i32 = 2;
pub const CX_COMPLETION_CHUNK_PLACEHOLDER: i32 = 3;
pub const CX_COMPLETION_CHUNK_INFORMATIVE: i32 = 4;
pub const CX_COMPLETION_CHUNK_CURRENT_PARAMETER: i32 = 5;
pub const CX_COMPLETION_CHUNK_RESULT_TYPE: i32 = 15;

/// A completion item; its insert text is a snippet.
#[derive(Debug, Clone)]
pub struct CompletionItem {
    pub label: String,
    pub kind: CompletionItemKind,
    pub detail: Option<String>,
    pub documentation: Option<String>,
    pub insert_text: String,
}

/// `s` without every leading `<#`.
pub open spec fn strip_open_marks(s: Seq<char>) -> Seq<char>
    decreases s.len(),
{
    if s.len() >= 2 && starts_with(s, "<#"@) {
        strip_open_marks(s.skip(2))
    } else {
        s
    }
}

/// `s` without every trailing `#>`.
pub open spec fn strip_close_marks(s: Seq<char>) -> Seq<char>
    decreases s.len(),
{
    if s.len() >= 2 && ends_with(s, "#>"@) {
        strip_close_marks(s.take(s.len() - 2))
    } else {
        s
    }
}

/// The text inside a clang placeholder.
pub open spec fn placeholder_inner(t: Seq<char>) -> Seq<char> {
    trim(strip_close_marks(strip_open_marks(t)))
}

/// Label, snippet, number of tab stops and detail after the chunks `cs`
/// (kind, text): typed text and text go to both label and snippet, a
/// placeholder becomes the next tab stop in the snippet and stays as is in
/// the label, the current parameter goes to the label, the result type
/// becomes the detail.
pub open spec fn chunks_state(cs: Seq<(i32, Seq<char>)>) -> (Seq<char>, Seq<char>, nat, Seq<char>)
    decreases cs.len(),
{
    if cs.len() == 0 {
        (Seq::empty(), Seq::empty(), 0, Seq::empty())
    } else {
        let (label, snippet, n, detail) = chunks_state(cs.drop_last());
        let (k, t) = cs.last();
        if k == CX_COMPLETION_CHUNK_TYPED_TEXT || k == CX_COMPLETION_CHUNK_TEXT || k == CX_COMPLETION_CHUNK_INFORMATIVE {
            (label + t, snippet + t, n, detail)
        } else if k == CX_COMPLETION_CHUNK_RESULT_TYPE {
            (label, snippet, n, t)
        } else if k == CX_COMPLETION_CHUNK_PLACEHOLDER {
            (label + t, snippet + "${"@ + decimal(n + 1) + ":"@ + placeholder_inner(t) + "}"@, n + 1, detail)
        } else if k == CX_COMPLETION_CHUNK_CURRENT_PARAMETER {
            (label + t, snippet, n, detail)
        } else {
            (label, snippet, n, detail)
        }
    }
}

pub open spec fn chunk_views(cs: Seq<(i32, String)>) -> Seq<(i32, Seq<char>)> {
    cs.map_values(|c: (i32, String)| (c.0, c.1@))
}

/// The inner text of a placeholder chunk.
fn placeholder_text(t: &str) -> (r: String)
    ensures
        r@ == placeholder_inner(t@),
{
    let v = chars_of(t);
    proof {
        reveal_strlit("<#");
        reveal_strlit("#>");
    }
    let mut a: usize = 0;
    assert(v@.skip(0) =~= v@);
    while v.len() - a >= 2 && v[a] == '<' && v[a + 1] == '#'
        invariant
            a <= v.len(),
            strip_open_marks(v@) == strip_open_marks(v@.skip(a as int)),
        decreases v.len() - a,
    {
        proof {
            reveal_strlit("<#");
        }
        assert(v@.skip(a as int).take(2) =~= "<#"@);
        assert(v@.skip(a as int).skip(2) =~= v@.skip(a + 2));
        a = a + 2;
    }
    proof {
        let s = v@.skip(a as int);
        if s.len() >= 2 && starts_with(s, "<#"@) {
            assert(s[0] == s.take(2)[0] && s[1] == s.take(2)[1]);
        }
    }
    let mut b = v.len();
    assert(v@.skip(a as int) =~= v@.subrange(a as int, b as int));
    while b - a >= 2 && v[b - 2] == '#' && v[b - 1] == '>'
        invariant
            a <= b <= v.len(),
            strip_close_marks(strip_open_marks(v@)) == strip_close_marks(v@.subrange(a as int, b as int)),
        decreases b - a,
    {
        let ghost s = v@.subrange(a as int, b as int);
        proof {
            reveal_strlit("#>");
        }
        assert(s.skip(s.len() - 2) =~= "#>"@);
        assert(s.take(s.len() - 2) =~= v@.subrange(a as int, b - 2));
        b = b - 2;
    }
    proof {
        let s = v@.subrange(a as int, b as int);
        if s.len() >= 2 && ends_with(s, "#>"@) {
            assert(s[s.len() - 2] == s.skip(s.len() - 2)[0] && s[s.len() - 1] == s.skip(s.len() - 2)[1]);
        }
    }
    let (c, d) = trim_range(&v, a, b);
    string_of(&v, c, d)
}

/// The completion item of a libclang result: cursor kind, chunks (kind,
/// text) and brief comment; none when the label is empty.  The detail is
/// the result type and the documentation the brief comment, each when not
/// empty.
pub fn cx_completion_to_lsp(cursor_kind: i32, chunks: &Vec<(i32, String)>, brief: String) -> (r: Option<CompletionItem>)
    ensures
        ({
            let (label, snippet, n, detail) = chunks_state(chunk_views(chunks@));
            if label.len() == 0 {
                r is None
            } else {
                r matches Some(item) && item.label@ == label && item.insert_text@ == snippet && item.kind
                    == completion_kind(cursor_kind) && (if detail.len() == 0 {
                    item.detail is None
                } else {
                    item.detail matches Some(d) && d@ == detail
                }) && (if brief@.len() == 0 {
                    item.documentation is None
                } else {
                    item.documentation matches Some(d) && d@ == brief@
                })
            }
        }),
{
    let ghost cv = chunk_views(chunks@);
    let mut label = String::new();
    let mut snippet = String::new();
    let mut count: usize = 0;
    let mut detail = String::new();
    let mut i: usize = 0;
    assert(cv.take(0) =~= Seq::<(i32, Seq<char>)>::empty());
    while i < chunks.len()
        invariant
            i <= chunks.len(),
            cv == chunk_views(chunks@),
            chunks_state(cv.take(i as int)) == (label@, snippet@, count as nat, detail@),
            count <= i,
        decreases chunks.len() - i,
    {
        assert(cv.take(i + 1).drop_last() =~= cv.take(i as int));
        assert(cv.take(i + 1).last() == (chunks@[i as int].0, chunks@[i as int].1@));
        let k = chunks[i].0;
        let t = &chunks[i].1;
        if k == CX_COMPLETION_CHUNK_TYPED_TEXT || k == CX_COMPLETION_CHUNK_TEXT || k == CX_COMPLETION_CHUNK_INFORMATIVE {
            append_string(&mut label, t);
            append_string(&mut snippet, t);
        } else if k == CX_COMPLETION_CHUNK_RESULT_TYPE {
            detail = crate::text::to_owned_string(t.as_str());
        } else if k == CX_COMPLETION_CHUNK_PLACEHOLDER {
            let inner = placeholder_text(t.as_str());
            count = count + 1;
            append_str(&mut snippet, "${");
            let num = decimal_string(count);
            append_string(&mut snippet, &num);
            append_str(&mut snippet, ":");
            append_string(&mut snippet, &inner);
            append_str(&mut snippet, "}");
            append_string(&mut label, t);
        } else if k == CX_COMPLETION_CHUNK_CURRENT_PARAMETER {
            append_string(&mut label, t);
        }
        i = i + 1;
    }
    assert(cv.take(chunks.len() as int) =~= cv);
    if label.as_str().is_empty() {
        return None;
    }
    let kind = cx_cursor_kind_to_completion_kind(cursor_kind);
    let detail = if detail.as_str().is_empty() {
        None
    } else {
        Some(detail)
    };
    let documentation = if brief.as_str().is_empty() {
        None
    } else {
        Some(brief)
    };
    Some(CompletionItem { label, kind, detail, documentation, insert_text: snippet })
}

} // verus!
