//! Rename edits for the references libclang finds.
//!
//! Renaming a property renames its accessors and ivar with it: each
//! reference gets the spelling its kind calls for.  The edits are grouped
//! by the file they apply to.

use vstd::prelude::*;

use crate::cursor_kinds::{
    clang_position, spelling_pos, CX_CURSOR_FUNCTION_DECL, CX_CURSOR_MEMBER_REF_EXPR,
    CX_CURSOR_OBJC_CLASS_METHOD_DECL, CX_CURSOR_OBJC_INSTANCE_METHOD_DECL, CX_CURSOR_OBJC_IVAR_DECL, CX_CURSOR_OBJC_MESSAGE_EXPR,
    CX_CURSOR_OBJC_PROPERTY_DECL, CX_CURSOR_TYPEDEF_DECL, CX_CURSOR_VAR_DECL,
};
use crate::lsp::{Range, TextEdit};
use crate::property::{capitalize_first, capitalized};
use crate::text::{
    append_str, append_string, ends_with, starts_with, str_ends_with, str_eq, str_starts_with,
    to_owned_string,
};
use crate::token_scan::file_uri;

verus! {

/// Whether a symbol of cursor kind `kind` can be renamed: properties,
/// methods, ivars, variables, functions and typedefs.
pub fn is_renameable_kind(kind: i32) -> (b: bool)
    ensures
        b == (kind == CX_CURSOR_OBJC_PROPERTY_DECL || kind == CX_CURSOR_OBJC_INSTANCE_METHOD_DECL || kind
            == CX_CURSOR_OBJC_CLASS_METHOD_DECL || kind == CX_CURSOR_OBJC_IVAR_DECL || kind
            == CX_CURSOR_VAR_DECL || kind == CX_CURSOR_FUNCTION_DECL || kind == CX_CURSOR_TYPEDEF_DECL),
{
    kind == CX_CURSOR_OBJC_PROPERTY_DECL || kind == CX_CURSOR_OBJC_INSTANCE_METHOD_DECL || kind
        == CX_CURSOR_OBJC_CLASS_METHOD_DECL || kind == CX_CURSOR_OBJC_IVAR_DECL || kind
        == CX_CURSOR_VAR_DECL || kind == CX_CURSOR_FUNCTION_DECL || kind == CX_CURSOR_TYPEDEF_DECL
}

/// The text that replaces a reference of cursor kind `kind`, spelled
/// `reference`, when the property `old` is renamed to `new`: the bare name
/// for the property and dot-syntax uses; for a method (declaration or
/// message send) `set<New>:` when the reference is the setter (spelled
/// `set<Old>...` or ending in `:`), else the bare name (the getter); `_new`
/// for the ivar; the bare name otherwise.
pub open spec fn property_replacement(old: Seq<char>, new: Seq<char>, kind: i32, reference: Seq<char>) -> Seq<char> {
    if kind == CX_CURSOR_OBJC_PROPERTY_DECL || kind == CX_CURSOR_MEMBER_REF_EXPR {
        new
    } else if kind == CX_CURSOR_OBJC_INSTANCE_METHOD_DECL || kind == CX_CURSOR_OBJC_MESSAGE_EXPR {
        if starts_with(reference, "set"@ + capitalized(old)) || ends_with(reference, ":"@) {
            "set"@ + capitalized(new) + ":"@
        } else {
            new
        }
    } else if kind == CX_CURSOR_OBJC_IVAR_DECL {
        "_"@ + new
    } else {
        new
    }
}

/// The text that replaces a reference of cursor kind `kind`, spelled
/// `reference`, when the property `old` is renamed to `new`.
pub fn derive_property_replacement(old: &str, new: &str, kind: i32, reference: &str) -> (r: String)
    ensures
        r@ == property_replacement(old@, new@, kind, reference@),
{
    if kind == CX_CURSOR_OBJC_PROPERTY_DECL || kind == CX_CURSOR_MEMBER_REF_EXPR {
        return to_owned_string(new);
    }
    if kind == CX_CURSOR_OBJC_INSTANCE_METHOD_DECL || kind == CX_CURSOR_OBJC_MESSAGE_EXPR {
        let mut setter_prefix = to_owned_string("set");
        let cap_old = capitalize_first(old);
        append_string(&mut setter_prefix, &cap_old);
        if str_starts_with(reference, setter_prefix.as_str()) || str_ends_with(reference, ":") {
            let mut r = to_owned_string("set");
            let cap_new = capitalize_first(new);
            append_string(&mut r, &cap_new);
            append_str(&mut r, ":");
            return r;
        }
        return to_owned_string(new);
    }
    if kind == CX_CURSOR_OBJC_IVAR_DECL {
        let mut r = to_owned_string("_");
        append_str(&mut r, new);
        return r;
    }
    to_owned_string(new)
}

/// A reference found by libclang: the kind of its cursor, the file of its
/// start (`None` when there is no file or no name for it), and its
/// 1-based start and end.
#[derive(Debug)]
pub struct FoundReference {
    pub kind: i32,
    /// The spelling of the reference's cursor (for a message send, its
    /// selector).
    pub spelling: String,
    pub file: Option<String>,
    pub start: (u32, u32),
    pub end: (u32, u32),
}

/// The edits for one file: its `file://` URI and the edits in the order
/// the references were found.
#[derive(Debug)]
pub struct FileEdits {
    pub uri: String,
    pub edits: Vec<TextEdit>,
}

/// The edit of one reference: its range, and the new name (or, for a
/// property, the spelling its kind calls for).
pub open spec fn reference_edit(r: FoundReference, old: Seq<char>, new: Seq<char>, is_property: bool) -> (Range, Seq<char>) {
    (
        Range { start: clang_position(r.start.0, r.start.1), end: clang_position(r.end.0, r.end.1) },
        if is_property {
            property_replacement(old, new, r.kind, r.spelling@)
        } else {
            new
        },
    )
}

/// The URI of the file of a reference, when it has one with a name.
pub open spec fn reference_uri(r: FoundReference) -> Option<Seq<char>> {
    match r.file {
        Some(f) => if f@.len() > 0 {
            Some("file://"@ + f@)
        } else {
            None
        },
        None => None,
    }
}

/// The edits of the references `refs` that land in the file `uri`, in
/// order.
pub open spec fn edits_for(refs: Seq<FoundReference>, uri: Seq<char>, old: Seq<char>, new: Seq<char>, is_property: bool) -> Seq<(Range, Seq<char>)>
    decreases refs.len(),
{
    if refs.len() == 0 {
        seq![]
    } else {
        let rest = edits_for(refs.drop_last(), uri, old, new, is_property);
        if reference_uri(refs.last()) == Some(uri) {
            rest.push(reference_edit(refs.last(), old, new, is_property))
        } else {
            rest
        }
    }
}

pub open spec fn edit_views(v: Seq<TextEdit>) -> Seq<(Range, Seq<char>)> {
    v.map_values(|e: TextEdit| (e.range, e.new_text@))
}

/// Whether `uri` is the URI of one of the references `refs`.
pub open spec fn has_uri(refs: Seq<FoundReference>, uri: Seq<char>) -> bool {
    exists|k: int| 0 <= k < refs.len() && reference_uri(#[trigger] refs[k]) == Some(uri)
}

fn reference_uri_exec(r: &FoundReference) -> (u: Option<String>)
    ensures
        match u {
            Some(x) => reference_uri(*r) == Some(x@),
            None => reference_uri(*r) is None,
        },
{
    match &r.file {
        Some(f) => if f.as_str().is_empty() {
            None
        } else {
            Some(file_uri(f.as_str()))
        },
        None => None,
    }
}

/// The edits of the references that land in the file `uri`, in order.
fn edits_in(refs: &Vec<FoundReference>, uri: &str, old: &str, new: &str, is_property: bool) -> (r: Vec<TextEdit>)
    ensures
        edit_views(r@) == edits_for(refs@, uri@, old@, new@, is_property),
{
    let mut out: Vec<TextEdit> = Vec::new();
    let mut k: usize = 0;
    assert(refs@.take(0) =~= Seq::<FoundReference>::empty());
    while k < refs.len()
        invariant
            k <= refs.len(),
            edit_views(out@) == edits_for(refs@.take(k as int), uri@, old@, new@, is_property),
        decreases refs.len() - k,
    {
        assert(refs@.take(k + 1).drop_last() =~= refs@.take(k as int));
        assert(refs@.take(k + 1).last() == refs@[k as int]);
        let rf = &refs[k];
        let here = match reference_uri_exec(rf) {
            Some(u) => str_eq(u.as_str(), uri),
            None => false,
        };
        if here {
            let text = if is_property {
                derive_property_replacement(old, new, rf.kind, rf.spelling.as_str())
            } else {
                to_owned_string(new)
            };
            let edit = TextEdit {
                range: Range { start: spelling_pos(rf.start.0, rf.start.1), end: spelling_pos(rf.end.0, rf.end.1) },
                new_text: text,
            };
            assert(edit_views(out@.push(edit)) =~= edit_views(out@).push((edit.range, edit.new_text@)));
            out.push(edit);
        }
        k = k + 1;
    }
    assert(refs@.take(refs.len() as int) =~= refs@);
    out
}

/// The rename edits of the references `refs`, grouped by file: each file
/// of a reference appears once, in the order first found, with the edits
/// of the references in it, in the order found; references without a
/// file are left out.
pub fn rename_edits(refs: &Vec<FoundReference>, old: &str, new: &str, is_property: bool) -> (r: Vec<FileEdits>)
    ensures
        forall|g: int|
            0 <= g < r.len() ==> has_uri(refs@, (#[trigger] r@[g]).uri@) && edit_views(r@[g].edits@)
                == edits_for(refs@, r@[g].uri@, old@, new@, is_property),
        forall|g: int, h: int| 0 <= g < h < r.len() ==> (#[trigger] r@[g]).uri@ != (#[trigger] r@[h]).uri@,
        forall|k: int|
            0 <= k < refs.len() && (#[trigger] reference_uri(refs@[k])) is Some ==> exists|g: int|
                0 <= g < r.len() && Some((#[trigger] r@[g]).uri@) == reference_uri(refs@[k]),
{
    let mut uris: Vec<String> = Vec::new();
    let mut k: usize = 0;
    while k < refs.len()
        invariant
            k <= refs.len(),
            forall|g: int| 0 <= g < uris.len() ==> has_uri(refs@, (#[trigger] uris@[g])@),
            forall|g: int, h: int| 0 <= g < h < uris.len() ==> (#[trigger] uris@[g])@ != (#[trigger] uris@[h])@,
            forall|j: int|
                0 <= j < k && (#[trigger] reference_uri(refs@[j])) is Some ==> exists|g: int|
                    0 <= g < uris.len() && Some((#[trigger] uris@[g])@) == reference_uri(refs@[j]),
        decreases refs.len() - k,
    {
        if let Some(u) = reference_uri_exec(&refs[k]) {
            let mut seen = false;
            let mut g: usize = 0;
            while g < uris.len()
                invariant
                    g <= uris.len(),
                    !seen ==> forall|h: int| 0 <= h < g ==> (#[trigger] uris@[h])@ != u@,
                    seen ==> exists|h: int| 0 <= h < uris.len() && (#[trigger] uris@[h])@ == u@,
                decreases uris.len() - g,
            {
                if str_eq(uris[g].as_str(), u.as_str()) {
                    seen = true;
                }
                g = g + 1;
            }
            if !seen {
                assert(has_uri(refs@, u@)) by {
                    assert(reference_uri(refs@[k as int]) == Some(u@));
                }
                let ghost before = uris@;
                uris.push(u);
                assert forall|j: int|
                    0 <= j < k + 1 && (#[trigger] reference_uri(refs@[j])) is Some implies exists|g: int|
                        0 <= g < uris.len() && Some((#[trigger] uris@[g])@) == reference_uri(refs@[j]) by {
                    if j < k {
                        let g0 = choose|g: int| 0 <= g < before.len() && Some((#[trigger] before[g])@) == reference_uri(refs@[j]);
                        assert(uris@[g0] == before[g0]);
                    } else {
                        assert(uris@[before.len() as int]@ == u@);
                    }
                }
            }
        }
        k = k + 1;
    }
    let mut groups: Vec<FileEdits> = Vec::new();
    let mut g: usize = 0;
    while g < uris.len()
        invariant
            g <= uris.len(),
            groups.len() == g,
            forall|a: int| 0 <= a < g ==> (#[trigger] groups@[a]).uri@ == uris@[a]@ && edit_views(groups@[a].edits@)
                == edits_for(refs@, uris@[a]@, old@, new@, is_property),
        decreases uris.len() - g,
    {
        let edits = edits_in(refs, uris[g].as_str(), old, new, is_property);
        groups.push(FileEdits { uri: to_owned_string(uris[g].as_str()), edits });
        g = g + 1;
    }
    assert forall|k: int|
        0 <= k < refs.len() && (#[trigger] reference_uri(refs@[k])) is Some implies exists|a: int|
            0 <= a < groups.len() && Some((#[trigger] groups@[a]).uri@) == reference_uri(refs@[k]) by {
        let a = choose|a: int| 0 <= a < uris.len() && Some((#[trigger] uris@[a])@) == reference_uri(refs@[k]);
        assert(groups@[a].uri@ == uris@[a]@);
    }
    groups
}

} // verus!
