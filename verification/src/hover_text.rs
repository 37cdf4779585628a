//! Hover text for Objective-C declarations.
//!
//! The server reads a declaration's facts from libclang (kind, spelling,
//! children, types, property attributes, documentation); the signature
//! lines and the Markdown of the hover are made here.

use vstd::prelude::*;

use crate::cursor_kinds::{
    kind_label, cursor_kind_label, CX_CURSOR_DECL_STMT, CX_CURSOR_INVALID_CODE, CX_CURSOR_NO_DECL_FOUND,
    CX_CURSOR_OBJC_CATEGORY_DECL, CX_CURSOR_OBJC_CATEGORY_IMPL_DECL, CX_CURSOR_OBJC_CLASS_METHOD_DECL,
    CX_CURSOR_OBJC_IMPLEMENTATION_DECL, CX_CURSOR_OBJC_INSTANCE_METHOD_DECL, CX_CURSOR_OBJC_INTERFACE_DECL,
    CX_CURSOR_OBJC_PROPERTY_DECL, CX_CURSOR_OBJC_PROTOCOL_DECL, CX_CURSOR_OBJC_PROTOCOL_REF,
    CX_CURSOR_OBJC_SUPER_CLASS_REF, CX_CURSOR_PARM_DECL, CX_CURSOR_TRANSLATION_UNIT,
};
use crate::text::{
    append_str, append_string, chars_of, join_by, join_strings, split_char, split_spans, str_eq,
    string_of, to_owned_string, views,
};

verus! {

// ---------------------------------------------------------------------------
// Signatures
// ---------------------------------------------------------------------------

/// The spelling of the last child of kind `kind` among `children`
/// (kind, spelling) from `j` on, if any.
pub open spec fn last_of_kind(children: Seq<(i32, Seq<char>)>, kind: i32) -> Option<Seq<char>>
    decreases children.len(),
{
    if children.len() == 0 {
        None
    } else if children.last().0 == kind {
        Some(children.last().1)
    } else {
        last_of_kind(children.drop_last(), kind)
    }
}

/// The non-empty spellings of the children of kind `kind`, in order.
pub open spec fn spellings_of_kind(children: Seq<(i32, Seq<char>)>, kind: i32) -> Seq<Seq<char>>
    decreases children.len(),
{
    if children.len() == 0 {
        seq![]
    } else {
        let rest = spellings_of_kind(children.drop_last(), kind);
        if children.last().0 == kind && children.last().1.len() > 0 {
            rest.push(children.last().1)
        } else {
            rest
        }
    }
}

pub open spec fn child_views(children: Seq<(i32, String)>) -> Seq<(i32, Seq<char>)> {
    children.map_values(|c: (i32, String)| (c.0, c.1@))
}

/// ` <A, B>` for a non-empty list, nothing for an empty one.
pub open spec fn angle_list(names: Seq<Seq<char>>) -> Seq<char> {
    if names.len() == 0 {
        Seq::empty()
    } else {
        " <"@ + join_by(names, ", "@) + ">"@
    }
}

/// `@interface Name : Super <P1, P2>`; nothing when the name is empty.
pub open spec fn interface_sig(name: Seq<char>, children: Seq<(i32, Seq<char>)>) -> Seq<char> {
    if name.len() == 0 {
        Seq::empty()
    } else {
        let sup = match last_of_kind(children, CX_CURSOR_OBJC_SUPER_CLASS_REF) {
            Some(s) => s,
            None => Seq::empty(),
        };
        "@interface "@ + name + (if sup.len() > 0 {
            " : "@ + sup
        } else {
            Seq::empty()
        }) + angle_list(spellings_of_kind(children, CX_CURSOR_OBJC_PROTOCOL_REF))
    }
}

/// The last spelling of a child of `kind`, empty when there is none.
fn last_spelling_of_kind(children: &Vec<(i32, String)>, kind: i32) -> (r: String)
    ensures
        r@ == (match last_of_kind(child_views(children@), kind) {
            Some(s) => s,
            None => Seq::empty(),
        }),
{
    let ghost cv = child_views(children@);
    let mut k = children.len();
    assert(cv.take(k as int) =~= cv);
    while k > 0
        invariant
            k <= children.len(),
            cv == child_views(children@),
            last_of_kind(cv, kind) == last_of_kind(cv.take(k as int), kind),
        decreases k,
    {
        assert(cv.take(k as int).last() == (children@[k - 1].0, children@[k - 1].1@));
        if children[k - 1].0 == kind {
            return to_owned_string(children[k - 1].1.as_str());
        }
        assert(cv.take(k as int).drop_last() =~= cv.take(k - 1));
        k = k - 1;
    }
    String::new()
}

/// The non-empty spellings of the children of `kind`, in order.
fn spellings_by_kind(children: &Vec<(i32, String)>, kind: i32) -> (r: Vec<String>)
    ensures
        views(r@) == spellings_of_kind(child_views(children@), kind),
{
    let ghost cv = child_views(children@);
    let mut r: Vec<String> = Vec::new();
    let mut k: usize = 0;
    assert(cv.take(0) =~= Seq::<(i32, Seq<char>)>::empty());
    while k < children.len()
        invariant
            k <= children.len(),
            cv == child_views(children@),
            views(r@) == spellings_of_kind(cv.take(k as int), kind),
        decreases children.len() - k,
    {
        assert(cv.take(k + 1).drop_last() =~= cv.take(k as int));
        assert(cv.take(k + 1).last() == (children@[k as int].0, children@[k as int].1@));
        if children[k].0 == kind && !children[k].1.as_str().is_empty() {
            let s = to_owned_string(children[k].1.as_str());
            assert(views(r@.push(s)) =~= views(r@).push(s@));
            r.push(s);
        }
        k = k + 1;
    }
    assert(cv.take(children.len() as int) =~= cv);
    r
}

fn append_angle_list(out: &mut String, names: &Vec<String>)
    ensures
        final(out)@ == old(out)@ + angle_list(views(names@)),
{
    if names.len() > 0 {
        append_str(out, " <");
        let j = join_strings(names, ", ");
        append_string(out, &j);
        append_str(out, ">");
    } else {
        assert(views(names@).len() == 0);
        assert(out@ =~= old(out)@ + Seq::<char>::empty());
    }
}

/// Build `@interface ClassName : SuperClass <Proto1, Proto2>` from the
/// class name and its children (kind, spelling): the last superclass
/// reference and the non-empty protocol references.
pub fn build_interface_signature(name: &str, children: &Vec<(i32, String)>) -> (r: String)
    ensures
        r@ == interface_sig(name@, child_views(children@)),
{
    if name.is_empty() {
        return String::new();
    }
    let sup = last_spelling_of_kind(children, CX_CURSOR_OBJC_SUPER_CLASS_REF);
    let protocols = spellings_by_kind(children, CX_CURSOR_OBJC_PROTOCOL_REF);
    let mut sig = to_owned_string("@interface ");
    append_str(&mut sig, name);
    if !sup.as_str().is_empty() {
        append_str(&mut sig, " : ");
        append_string(&mut sig, &sup);
    }
    append_angle_list(&mut sig, &protocols);
    sig
}

/// `@protocol Name <P1, P2>`; nothing when the name is empty.
pub open spec fn protocol_sig(name: Seq<char>, children: Seq<(i32, Seq<char>)>) -> Seq<char> {
    if name.len() == 0 {
        Seq::empty()
    } else {
        "@protocol "@ + name + angle_list(spellings_of_kind(children, CX_CURSOR_OBJC_PROTOCOL_REF))
    }
}

/// Build `@protocol ProtoName <Parent1, Parent2>` from the protocol name
/// and its children (kind, spelling).
pub fn build_protocol_signature(name: &str, children: &Vec<(i32, String)>) -> (r: String)
    ensures
        r@ == protocol_sig(name@, child_views(children@)),
{
    if name.is_empty() {
        return String::new();
    }
    let parents = spellings_by_kind(children, CX_CURSOR_OBJC_PROTOCOL_REF);
    let mut sig = to_owned_string("@protocol ");
    append_str(&mut sig, name);
    append_angle_list(&mut sig, &parents);
    sig
}

/// Build `@interface ClassName(CategoryName)` from the category's
/// display name; nothing when it is empty.
pub fn build_category_signature(display: &str) -> (r: String)
    ensures
        r@ == (if display@.len() == 0 {
            Seq::empty()
        } else {
            "@interface "@ + display@
        }),
{
    if display.is_empty() {
        return String::new();
    }
    let mut sig = to_owned_string("@interface ");
    append_str(&mut sig, display);
    sig
}

/// A method parameter: kind of the child cursor, type spelling, name.
pub open spec fn param_views(children: Seq<(i32, String, String)>) -> Seq<(i32, Seq<char>, Seq<char>)> {
    children.map_values(|c: (i32, String, String)| (c.0, c.1@, c.2@))
}

/// The (type, name) of the parameter children, in order.
pub open spec fn params_of(children: Seq<(i32, Seq<char>, Seq<char>)>) -> Seq<(Seq<char>, Seq<char>)>
    decreases children.len(),
{
    if children.len() == 0 {
        seq![]
    } else {
        let rest = params_of(children.drop_last());
        if children.last().0 == CX_CURSOR_PARM_DECL {
            rest.push((children.last().1, children.last().2))
        } else {
            rest
        }
    }
}

/// `kw:(type)name` for the parameters `ps`, keyword `i` of the selector
/// pieces `kws` for parameter `i` (`_` past their end), with spaces
/// between.
pub open spec fn keyword_params(kws: Seq<Seq<char>>, ps: Seq<(Seq<char>, Seq<char>)>) -> Seq<char>
    decreases ps.len(),
{
    if ps.len() == 0 {
        Seq::empty()
    } else {
        let i = ps.len() - 1;
        let kw = if i < kws.len() {
            kws[i]
        } else {
            "_"@
        };
        let part = kw + ":("@ + ps.last().0 + ")"@ + ps.last().1;
        if i == 0 {
            part
        } else {
            keyword_params(kws, ps.drop_last()) + " "@ + part
        }
    }
}

/// `- (Ret)sel` / `+ (Ret)kw:(T)p kw2:(T2)q`: the display name split at
/// `:` gives the keywords; nothing when the display name is empty.
pub open spec fn method_sig(
    is_class: bool,
    ret: Seq<char>,
    display: Seq<char>,
    children: Seq<(i32, Seq<char>, Seq<char>)>,
) -> Seq<char> {
    let prefix = if is_class {
        "+"@
    } else {
        "-"@
    };
    let ps = params_of(children);
    if display.len() == 0 {
        Seq::empty()
    } else if ps.len() == 0 {
        prefix + " ("@ + ret + ")"@ + display
    } else {
        prefix + " ("@ + ret + ")"@ + keyword_params(split_char(display, ':'), ps)
    }
}

/// Build `- (ReturnType)methodName:(ParamType)paramName ...` for a method
/// of cursor kind `kind` from its result type (`None` for an invalid one,
/// shown as `id`), display name and children (kind, type, name).
pub fn build_method_signature(
    kind: i32,
    result_type: Option<String>,
    display: &str,
    children: &Vec<(i32, String, String)>,
) -> (r: String)
    ensures
        r@ == method_sig(
            kind == CX_CURSOR_OBJC_CLASS_METHOD_DECL,
            match result_type {
                Some(t) => t@,
                None => "id"@,
            },
            display@,
            param_views(children@),
        ),
{
    let ret = match result_type {
        Some(t) => t,
        None => to_owned_string("id"),
    };
    if display.is_empty() {
        return String::new();
    }
    let mut sig = if kind == CX_CURSOR_OBJC_CLASS_METHOD_DECL {
        to_owned_string("+")
    } else {
        to_owned_string("-")
    };
    append_str(&mut sig, " (");
    append_string(&mut sig, &ret);
    append_str(&mut sig, ")");
    let ghost head = sig@;
    let ghost pv = param_views(children@);
    let dv = chars_of(display);
    let kws = split_spans(&dv, ':');
    let ghost kw_seq = split_char(dv@, ':');
    let mut count: usize = 0;
    let mut k: usize = 0;
    let ghost mut ps: Seq<(Seq<char>, Seq<char>)> = seq![];
    assert(pv.take(0) =~= Seq::<(i32, Seq<char>, Seq<char>)>::empty());
    while k < children.len()
        invariant
            k <= children.len(),
            pv == param_views(children@),
            dv@ == display@,
            kw_seq == split_char(dv@, ':'),
            kws.len() == kw_seq.len(),
            forall|j: int| #![trigger kws@[j]] 0 <= j < kws.len() ==> kws@[j].0 <= kws@[j].1 <= dv.len(),
            forall|j: int|
                #![trigger kws@[j]]
                0 <= j < kws.len() ==> dv@.subrange(kws@[j].0 as int, kws@[j].1 as int) == kw_seq[j],
            ps == params_of(pv.take(k as int)),
            count == ps.len(),
            count <= k,
            sig@ == head + keyword_params(kw_seq, ps),
        decreases children.len() - k,
    {
        assert(pv.take(k + 1).drop_last() =~= pv.take(k as int));
        assert(pv.take(k + 1).last() == (children@[k as int].0, children@[k as int].1@, children@[k as int].2@));
        if children[k].0 == CX_CURSOR_PARM_DECL {
            if count > 0 {
                append_str(&mut sig, " ");
            }
            if count < kws.len() {
                let (a, b) = kws[count];
                let kw = string_of(&dv, a, b);
                append_string(&mut sig, &kw);
            } else {
                append_str(&mut sig, "_");
            }
            append_str(&mut sig, ":(");
            append_string(&mut sig, &children[k].1);
            append_str(&mut sig, ")");
            append_string(&mut sig, &children[k].2);
            proof {
                let nps = ps.push((children@[k as int].1@, children@[k as int].2@));
                assert(nps.drop_last() =~= ps);
                if count == 0 {
                    assert(keyword_params(kw_seq, ps) =~= Seq::<char>::empty());
                }
                ps = nps;
            }
            count = count + 1;
        }
        k = k + 1;
    }
    assert(pv.take(children.len() as int) =~= pv);
    if count == 0 {
        let mut out = sig;
        append_str(&mut out, display);
        assert(keyword_params(kw_seq, ps) =~= Seq::<char>::empty());
        return out;
    }
    sig
}

/// The property attribute words for libclang's attribute bits.
pub open spec fn property_attrs(attrs: u32) -> Seq<Seq<char>> {
    let atomicity = if attrs & 0x20 != 0 {
        "nonatomic"@
    } else {
        "atomic"@
    };
    let access: Seq<Seq<char>> = if attrs & 0x8 != 0 {
        seq!["readonly"@]
    } else if attrs & 0x10 != 0 {
        seq!["readwrite"@]
    } else {
        seq![]
    };
    let ownership: Seq<Seq<char>> = if attrs & 0x200 != 0 {
        seq!["strong"@]
    } else if attrs & 0x400 != 0 {
        seq!["weak"@]
    } else if attrs & 0x4 != 0 {
        seq!["copy"@]
    } else if attrs & 0x2 != 0 {
        seq!["assign"@]
    } else {
        seq![]
    };
    seq![atomicity] + access + ownership
}

/// `@property (attrs) Type name`; nothing when the name is empty.
pub open spec fn property_sig(name: Seq<char>, ty: Seq<char>, attrs: u32) -> Seq<char> {
    if name.len() == 0 {
        Seq::empty()
    } else {
        "@property ("@ + join_by(property_attrs(attrs), ", "@) + ") "@ + ty + " "@ + name
    }
}

/// Build `@property (attrs) Type name` from the property's name, type
/// (`None` for an invalid one, shown as `id`) and attribute bits.
pub fn build_property_signature(name: &str, ty: Option<String>, attrs: u32) -> (r: String)
    ensures
        r@ == property_sig(
            name@,
            match ty {
                Some(t) => t@,
                None => "id"@,
            },
            attrs,
        ),
{
    if name.is_empty() {
        return String::new();
    }
    let ty_str = match ty {
        Some(t) => t,
        None => to_owned_string("id"),
    };
    let mut parts: Vec<String> = Vec::new();
    if attrs & 0x20 != 0 {
        parts.push(to_owned_string("nonatomic"));
    } else {
        parts.push(to_owned_string("atomic"));
    }
    if attrs & 0x8 != 0 {
        parts.push(to_owned_string("readonly"));
    } else if attrs & 0x10 != 0 {
        parts.push(to_owned_string("readwrite"));
    }
    if attrs & 0x200 != 0 {
        parts.push(to_owned_string("strong"));
    } else if attrs & 0x400 != 0 {
        parts.push(to_owned_string("weak"));
    } else if attrs & 0x4 != 0 {
        parts.push(to_owned_string("copy"));
    } else if attrs & 0x2 != 0 {
        parts.push(to_owned_string("assign"));
    }
    assert(views(parts@) =~= property_attrs(attrs));
    let mut sig = to_owned_string("@property (");
    let j = join_strings(&parts, ", ");
    append_string(&mut sig, &j);
    append_str(&mut sig, ") ");
    append_string(&mut sig, &ty_str);
    append_str(&mut sig, " ");
    append_str(&mut sig, name);
    sig
}

// ---------------------------------------------------------------------------
// The hover
// ---------------------------------------------------------------------------

/// What to show for a resolved cursor.
#[derive(Debug, Clone, Copy, PartialEq, Eq, Structural)]
pub enum HoverPlan {
    /// No hover.
    Nothing,
    /// The spelling under the cursor, as a macro with no definition.
    MacroName,
    /// The spelling under the cursor, with no definition found.
    NoDefinition,
    /// The declaration's signature, kind, type and documentation.
    Render,
}

pub open spec fn is_container_kind(kind: i32) -> bool {
    kind == CX_CURSOR_OBJC_IMPLEMENTATION_DECL || kind == CX_CURSOR_OBJC_CATEGORY_IMPL_DECL || kind
        == CX_CURSOR_TRANSLATION_UNIT
}

/// The plan for a cursor resolved to kind `kind` from a cursor of kind
/// `raw_kind`: nothing for invalid code and missing declarations; for
/// preprocessor kinds (100 to 110) a macro name on kind 103 and nothing
/// otherwise; nothing when both are containers (an `@implementation`, a
/// category implementation or the whole unit); a bare spelling for an
/// unresolved declaration statement; a rendered hover otherwise.
pub open spec fn plan_of(kind: i32, raw_kind: i32) -> HoverPlan {
    if kind == CX_CURSOR_INVALID_CODE || kind == CX_CURSOR_NO_DECL_FOUND {
        HoverPlan::Nothing
    } else if 100 <= kind <= 110 {
        if kind == 103 {
            HoverPlan::MacroName
        } else {
            HoverPlan::Nothing
        }
    } else if is_container_kind(raw_kind) && is_container_kind(kind) {
        HoverPlan::Nothing
    } else if kind == CX_CURSOR_DECL_STMT {
        HoverPlan::NoDefinition
    } else {
        HoverPlan::Render
    }
}

/// The plan for a cursor resolved to kind `kind` from a cursor of kind
/// `raw_kind`.
pub fn hover_plan(kind: i32, raw_kind: i32) -> (p: HoverPlan)
    ensures
        p == plan_of(kind, raw_kind),
{
    if kind == CX_CURSOR_INVALID_CODE || kind == CX_CURSOR_NO_DECL_FOUND {
        HoverPlan::Nothing
    } else if 100 <= kind && kind <= 110 {
        if kind == 103 {
            HoverPlan::MacroName
        } else {
            HoverPlan::Nothing
        }
    } else if (raw_kind == CX_CURSOR_OBJC_IMPLEMENTATION_DECL || raw_kind == CX_CURSOR_OBJC_CATEGORY_IMPL_DECL
        || raw_kind == CX_CURSOR_TRANSLATION_UNIT) && (kind == CX_CURSOR_OBJC_IMPLEMENTATION_DECL || kind
        == CX_CURSOR_OBJC_CATEGORY_IMPL_DECL || kind == CX_CURSOR_TRANSLATION_UNIT) {
        HoverPlan::Nothing
    } else if kind == CX_CURSOR_DECL_STMT {
        HoverPlan::NoDefinition
    } else {
        HoverPlan::Render
    }
}

/// ``name` — macro (no definition found)`.
pub fn macro_hover_text(name: &str) -> (r: String)
    ensures
        r@ == "`"@ + name@ + "` — macro (no definition found)"@,
{
    let mut r = to_owned_string("`");
    append_str(&mut r, name);
    append_str(&mut r, "` — macro (no definition found)");
    r
}

/// ``name` — no definition found`.
pub fn no_definition_hover_text(name: &str) -> (r: String)
    ensures
        r@ == "`"@ + name@ + "` — no definition found"@,
{
    let mut r = to_owned_string("`");
    append_str(&mut r, name);
    append_str(&mut r, "` — no definition found");
    r
}

/// Kinds whose hover shows an Objective-C signature.
pub open spec fn has_signature(kind: i32) -> bool {
    ||| kind == CX_CURSOR_OBJC_INTERFACE_DECL
    ||| kind == CX_CURSOR_OBJC_PROTOCOL_DECL
    ||| kind == CX_CURSOR_OBJC_CATEGORY_DECL
    ||| kind == CX_CURSOR_OBJC_INSTANCE_METHOD_DECL
    ||| kind == CX_CURSOR_OBJC_CLASS_METHOD_DECL
    ||| kind == CX_CURSOR_OBJC_PROPERTY_DECL
}

pub open spec fn kind_line(kind: i32, display: Seq<char>) -> Seq<char> {
    "**"@ + kind_label(kind) + "** `"@ + display + "`"@
}

/// The Markdown parts of a hover: the signature in an `objc` code block
/// (or the kind and name when there is no signature) for Objective-C
/// declarations; the kind and name and a type line (when the type is
/// known, not `void` and not the name itself) for the others; then the
/// documentation when there is any.
pub open spec fn hover_parts(
    kind: i32,
    display: Seq<char>,
    sig: Seq<char>,
    ty: Option<Seq<char>>,
    doc: Seq<char>,
) -> Seq<Seq<char>> {
    let head: Seq<Seq<char>> = if has_signature(kind) {
        if sig.len() > 0 {
            seq!["```objc\n"@ + sig + "\n```"@]
        } else if display.len() > 0 {
            seq![kind_line(kind, display)]
        } else {
            seq![]
        }
    } else {
        (if display.len() > 0 {
            seq![kind_line(kind, display)]
        } else {
            seq![]
        }) + (match ty {
            Some(t) => if t.len() > 0 && t != "void"@ && t != display {
                seq!["*Type:* `"@ + t + "`"@]
            } else {
                seq![]
            },
            None => seq![],
        })
    };
    head + (if doc.len() > 0 {
        seq![doc]
    } else {
        seq![]
    })
}

/// The Markdown of a hover: its parts separated by blank lines; `None`
/// when there are none.
pub fn hover_markdown(kind: i32, display: &str, signature: &str, type_spelling: Option<String>, doc: &str) -> (r: Option<String>)
    ensures
        ({
            let parts = hover_parts(
                kind,
                display@,
                signature@,
                match type_spelling {
                    Some(t) => Some(t@),
                    None => None,
                },
                doc@,
            );
            if parts.len() == 0 {
                r is None
            } else {
                r matches Some(s) && s@ == join_by(parts, "\n\n"@)
            }
        }),
{
    let ghost tv = match &type_spelling {
        Some(t) => Some(t@),
        None => None::<Seq<char>>,
    };
    let mut parts: Vec<String> = Vec::new();
    let kind_part = |k: i32, d: &str| -> (s: String)
        ensures
            s@ == kind_line(k, d@),
        {
            let mut s = to_owned_string("**");
            append_str(&mut s, cursor_kind_label(k));
            append_str(&mut s, "** `");
            append_str(&mut s, d);
            append_str(&mut s, "`");
            s
        };
    if kind == CX_CURSOR_OBJC_INTERFACE_DECL || kind == CX_CURSOR_OBJC_PROTOCOL_DECL || kind
        == CX_CURSOR_OBJC_CATEGORY_DECL || kind == CX_CURSOR_OBJC_INSTANCE_METHOD_DECL || kind
        == CX_CURSOR_OBJC_CLASS_METHOD_DECL || kind == CX_CURSOR_OBJC_PROPERTY_DECL {
        if !signature.is_empty() {
            let mut s = to_owned_string("```objc\n");
            append_str(&mut s, signature);
            append_str(&mut s, "\n```");
            parts.push(s);
        } else if !display.is_empty() {
            parts.push(kind_part(kind, display));
        }
    } else {
        if !display.is_empty() {
            parts.push(kind_part(kind, display));
        }
        if let Some(t) = &type_spelling {
            if !t.as_str().is_empty() && !str_eq(t.as_str(), "void") && !str_eq(t.as_str(), display) {
                let mut s = to_owned_string("*Type:* `");
                append_string(&mut s, t);
                append_str(&mut s, "`");
                parts.push(s);
            }
        }
    }
    if !doc.is_empty() {
        parts.push(to_owned_string(doc));
    }
    assert(views(parts@) =~= hover_parts(kind, display@, signature@, tv, doc@));
    if parts.len() == 0 {
        return None;
    }
    Some(join_strings(&parts, "\n\n"))
}

/// The atomicity word of a property's attribute bits.
pub open spec fn atomicity_word(attrs: u32) -> Seq<char> {
    if attrs & 0x20 != 0 {
        "nonatomic"@
    } else {
        "atomic"@
    }
}

/// The access word of a property's attribute bits, with the separator
/// before it; nothing when neither `readonly` nor `readwrite` is set.
pub open spec fn access_part(attrs: u32) -> Seq<char> {
    if attrs & 0x8 != 0 {
        ", readonly"@
    } else if attrs & 0x10 != 0 {
        ", readwrite"@
    } else {
        Seq::empty()
    }
}

proof fn lemma_property_text(name: Seq<char>, ty: Seq<char>, attrs: u32, word: Seq<char>)
    requires
        name.len() > 0,
        property_attrs(attrs) == seq![atomicity_word(attrs)] + (if attrs & 0x8 != 0 {
            seq!["readonly"@]
        } else if attrs & 0x10 != 0 {
            seq!["readwrite"@]
        } else {
            Seq::<Seq<char>>::empty()
        }) + seq![word],
    ensures
        property_sig(name, ty, attrs) == "@property ("@ + atomicity_word(attrs) + access_part(attrs) + ", "@ + word
            + ") "@ + ty + " "@ + name,
{
    reveal_strlit(", readonly");
    reveal_strlit(", readwrite");
    reveal_strlit("readonly");
    reveal_strlit("readwrite");
    reveal_strlit(", ");
    let a = atomicity_word(attrs);
    let ls = property_attrs(attrs);
    if attrs & 0x8 != 0 || attrs & 0x10 != 0 {
        let acc = if attrs & 0x8 != 0 {
            "readonly"@
        } else {
            "readwrite"@
        };
        assert(ls =~= seq![a, acc, word]);
        assert(ls.drop_last() =~= seq![a, acc]);
        assert(seq![a, acc].drop_last() =~= seq![a]);
        assert(join_by(seq![a], ", "@) == a);
        assert(join_by(seq![a, acc], ", "@) == join_by(seq![a], ", "@) + ", "@ + acc);
        assert(join_by(ls, ", "@) == join_by(seq![a, acc], ", "@) + ", "@ + word);
        assert(join_by(ls, ", "@) =~= a + ", "@ + acc + ", "@ + word);
        assert(access_part(attrs) =~= ", "@ + acc);
    } else {
        assert(ls =~= seq![a, word]);
        assert(ls.drop_last() =~= seq![a]);
        assert(join_by(seq![a], ", "@) == a);
        assert(join_by(ls, ", "@) == join_by(seq![a], ", "@) + ", "@ + word);
        assert(join_by(ls, ", "@) =~= a + ", "@ + word);
        assert(access_part(attrs) =~= Seq::<char>::empty());
    }
    assert(property_sig(name, ty, attrs) =~= "@property ("@ + atomicity_word(attrs) + access_part(attrs) + ", "@ + word
        + ") "@ + ty + " "@ + name);
}

/// An `assign` property (bit `0x2`, with none of the `strong` `0x200`,
/// `weak` `0x400` and `copy` `0x4` bits) is shown as
/// `@property (<atomicity>[, <access>], assign) <Type> <name>`.
pub proof fn lemma_assign_property_signature(name: Seq<char>, ty: Seq<char>, attrs: u32)
    requires
        name.len() > 0,
        attrs & 0x2 != 0,
        attrs & 0x200 == 0,
        attrs & 0x400 == 0,
        attrs & 0x4 == 0,
    ensures
        property_sig(name, ty, attrs) == "@property ("@ + atomicity_word(attrs) + access_part(attrs) + ", assign) "@ + ty
            + " "@ + name,
{
    lemma_property_text(name, ty, attrs, "assign"@);
    reveal_strlit(", ");
    reveal_strlit("assign");
    reveal_strlit(") ");
    reveal_strlit(", assign) ");
    assert(", "@ + "assign"@ + ") "@ =~= ", assign) "@);
    assert(property_sig(name, ty, attrs) =~= "@property ("@ + atomicity_word(attrs) + access_part(attrs) + ", assign) "@
        + ty + " "@ + name);
}

/// A `weak` property (bit `0x400`, without the `strong` bit `0x200`) is
/// shown as `@property (<atomicity>[, <access>], weak) <Type> <name>`.
pub proof fn lemma_weak_property_signature(name: Seq<char>, ty: Seq<char>, attrs: u32)
    requires
        name.len() > 0,
        attrs & 0x400 != 0,
        attrs & 0x200 == 0,
    ensures
        property_sig(name, ty, attrs) == "@property ("@ + atomicity_word(attrs) + access_part(attrs) + ", weak) "@ + ty
            + " "@ + name,
{
    lemma_property_text(name, ty, attrs, "weak"@);
    reveal_strlit(", ");
    reveal_strlit("weak");
    reveal_strlit(") ");
    reveal_strlit(", weak) ");
    assert(", "@ + "weak"@ + ") "@ =~= ", weak) "@);
    assert(property_sig(name, ty, attrs) =~= "@property ("@ + atomicity_word(attrs) + access_part(attrs) + ", weak) "@
        + ty + " "@ + name);
}

/// A `strong` property (bit `0x200`) is shown as
/// `@property (<atomicity>[, <access>], strong) <Type> <name>`.
pub proof fn lemma_strong_property_signature(name: Seq<char>, ty: Seq<char>, attrs: u32)
    requires
        name.len() > 0,
        attrs & 0x200 != 0,
    ensures
        property_sig(name, ty, attrs) == "@property ("@ + atomicity_word(attrs) + access_part(attrs) + ", strong) "@
            + ty + " "@ + name,
{
    lemma_property_text(name, ty, attrs, "strong"@);
    reveal_strlit(", ");
    reveal_strlit("strong");
    reveal_strlit(") ");
    reveal_strlit(", strong) ");
    assert(", "@ + "strong"@ + ") "@ =~= ", strong) "@);
    assert(property_sig(name, ty, attrs) =~= "@property ("@ + atomicity_word(attrs) + access_part(attrs)
        + ", strong) "@ + ty + " "@ + name);
}

/// A `copy` property (bit `0x4`, with neither `strong` `0x200` nor `weak`
/// `0x400`) is shown as
/// `@property (<atomicity>[, <access>], copy) <Type> <name>`.
pub proof fn lemma_copy_property_signature(name: Seq<char>, ty: Seq<char>, attrs: u32)
    requires
        name.len() > 0,
        attrs & 0x4 != 0,
        attrs & 0x200 == 0,
        attrs & 0x400 == 0,
    ensures
        property_sig(name, ty, attrs) == "@property ("@ + atomicity_word(attrs) + access_part(attrs) + ", copy) "@ + ty
            + " "@ + name,
{
    lemma_property_text(name, ty, attrs, "copy"@);
    reveal_strlit(", ");
    reveal_strlit("copy");
    reveal_strlit(") ");
    reveal_strlit(", copy) ");
    assert(", "@ + "copy"@ + ") "@ =~= ", copy) "@);
    assert(property_sig(name, ty, attrs) =~= "@property ("@ + atomicity_word(attrs) + access_part(attrs) + ", copy) "@
        + ty + " "@ + name);
}

} // verus!
