//! "Add missing protocol stubs": the methods that the protocols of an
//! `@implementation` require and it does not implement, as stub text.
//!
//! The server reads from libclang the methods already implemented, the
//! methods each conformed protocol declares, and where the block ends.

use vstd::prelude::*;

use crate::cursor_kinds::{CX_CURSOR_OBJC_CLASS_METHOD_DECL, CX_CURSOR_OBJC_INSTANCE_METHOD_DECL};
use crate::lsp::{pos, CodeAction, Position, Range, TextEdit};
use crate::text::{
    append_str, append_string, chars_of, join_by, join_strings, split_char, split_spans, str_eq, string_of,
    to_owned_string, views,
};

verus! {

/// A single unimplemented protocol method.
#[derive(Debug)]
pub struct MissingStub {
    pub selector: String,
    pub is_class_method: bool,
    pub return_type: String,
    /// (keyword, type) of each argument.
    pub params: Vec<(String, String)>,
}

pub open spec fn param_views(p: Seq<(String, String)>) -> Seq<(Seq<char>, Seq<char>)> {
    p.map_values(|x: (String, String)| (x.0@, x.1@))
}

/// A stub as plain values.
pub open spec fn stub_view(s: MissingStub) -> (Seq<char>, bool, Seq<char>, Seq<(Seq<char>, Seq<char>)>) {
    (s.selector@, s.is_class_method, s.return_type@, param_views(s.params@))
}

/// The (keyword, type) pairs of a method's arguments: keyword `i` is
/// piece `i` of the selector split at `:`, or `arg` past them.
pub open spec fn stub_params(selector: Seq<char>, arg_types: Seq<Seq<char>>) -> Seq<(Seq<char>, Seq<char>)> {
    let parts = split_char(selector, ':');
    Seq::new(
        arg_types.len(),
        |i: int|
            (
                if i < parts.len() {
                    parts[i]
                } else {
                    "arg"@
                },
                arg_types[i],
            ),
    )
}

/// The stub of a protocol method (kind, selector, return type, argument
/// types, whether it is declared `@optional`); none when the cursor is not
/// a method, or is an optional one, which a conforming class need not
/// implement.
pub fn stub_of_method(
    kind: i32,
    selector: String,
    return_type: String,
    arg_types: &Vec<String>,
    is_optional: bool,
) -> (r: Option<MissingStub>)
    ensures
        match r {
            Some(s) => (kind == CX_CURSOR_OBJC_INSTANCE_METHOD_DECL || kind == CX_CURSOR_OBJC_CLASS_METHOD_DECL)
                && !is_optional && stub_view(s) == (
                selector@,
                kind == CX_CURSOR_OBJC_CLASS_METHOD_DECL,
                return_type@,
                stub_params(selector@, views(arg_types@)),
            ),
            None => !(kind == CX_CURSOR_OBJC_INSTANCE_METHOD_DECL || kind == CX_CURSOR_OBJC_CLASS_METHOD_DECL)
                || is_optional,
        },
{
    if kind != CX_CURSOR_OBJC_INSTANCE_METHOD_DECL && kind != CX_CURSOR_OBJC_CLASS_METHOD_DECL {
        return None;
    }
    if is_optional {
        return None;
    }
    let v = chars_of(selector.as_str());
    let parts = split_spans(&v, ':');
    let ghost want = stub_params(selector@, views(arg_types@));
    let mut params: Vec<(String, String)> = Vec::new();
    let mut i: usize = 0;
    while i < arg_types.len()
        invariant
            i <= arg_types.len(),
            v@ == selector@,
            want == stub_params(selector@, views(arg_types@)),
            parts.len() == split_char(v@, ':').len(),
            forall|k: int| #![trigger parts@[k]] 0 <= k < parts.len() ==> parts@[k].0 <= parts@[k].1 <= v.len(),
            forall|k: int|
                #![trigger parts@[k]]
                0 <= k < parts.len() ==> v@.subrange(parts@[k].0 as int, parts@[k].1 as int) == split_char(v@, ':')[k],
            param_views(params@) == want.take(i as int),
            params.len() == i,
            want.len() == arg_types.len(),
        decreases arg_types.len() - i,
    {
        let kw = if i < parts.len() {
            let (a, b) = parts[i];
            string_of(&v, a, b)
        } else {
            to_owned_string("arg")
        };
        let ty = to_owned_string(arg_types[i].as_str());
        let ghost p = (kw@, ty@);
        assert(p == want[i as int]);
        let ghost before = params@;
        let pair = (kw, ty);
        assert((pair.0@, pair.1@) == p);
        params.push(pair);
        assert(params@ == before.push(pair));
        assert(param_views(params@) =~= param_views(before).push(p));
        assert(want.take(i + 1) =~= want.take(i as int).push(want[i as int]));
        i = i + 1;
    }
    assert(want.take(arg_types.len() as int) =~= want);
    Some(
        MissingStub {
            selector,
            is_class_method: kind == CX_CURSOR_OBJC_CLASS_METHOD_DECL,
            return_type,
            params,
        },
    )
}

/// `s` without every trailing `:`.
pub open spec fn strip_colons(s: Seq<char>) -> Seq<char>
    decreases s.len(),
{
    if s.len() > 0 && s.last() == ':' {
        strip_colons(s.drop_last())
    } else {
        s
    }
}

/// `kw:(type)kw` for each parameter, with spaces between.
pub open spec fn param_parts(ps: Seq<(Seq<char>, Seq<char>)>) -> Seq<Seq<char>> {
    ps.map_values(|p: (Seq<char>, Seq<char>)| p.0 + ":("@ + p.1 + ")"@ + p.0)
}

/// The text of a stub: the signature (`- (ret)sel` for a method without
/// arguments, `- (ret)kw:(type)kw ...` otherwise, `+` for class methods)
/// and a body holding a reminder comment.
pub open spec fn stub_text(s: (Seq<char>, bool, Seq<char>, Seq<(Seq<char>, Seq<char>)>)) -> Seq<char> {
    let prefix = if s.1 {
        "+"@
    } else {
        "-"@
    };
    let sig = if s.3.len() == 0 {
        prefix + " ("@ + s.2 + ")"@ + strip_colons(s.0)
    } else {
        prefix + " ("@ + s.2 + ")"@ + join_by(param_parts(s.3), " "@)
    };
    sig + " {\n    // TODO: implement\n}"@
}

/// The stub text of a missing method.
pub fn generate_stub_text(stub: &MissingStub) -> (r: String)
    ensures
        r@ == stub_text(stub_view(*stub)),
{
    let mut sig = if stub.is_class_method {
        to_owned_string("+")
    } else {
        to_owned_string("-")
    };
    append_str(&mut sig, " (");
    append_string(&mut sig, &stub.return_type);
    append_str(&mut sig, ")");
    if stub.params.len() == 0 {
        let v = chars_of(stub.selector.as_str());
        let mut e = v.len();
        assert(v@.take(e as int) =~= v@);
        while e > 0 && v[e - 1] == ':'
            invariant
                e <= v.len(),
                strip_colons(v@) == strip_colons(v@.take(e as int)),
            decreases e,
        {
            assert(v@.take(e as int).drop_last() =~= v@.take(e - 1));
            e = e - 1;
        }
        assert(v@.take(e as int) =~= v@.subrange(0, e as int));
        let sel = string_of(&v, 0, e);
        append_string(&mut sig, &sel);
        assert(v@.take(v.len() as int) =~= v@);
    } else {
        let mut parts: Vec<String> = Vec::new();
        let mut i: usize = 0;
        while i < stub.params.len()
            invariant
                i <= stub.params.len(),
                views(parts@) == param_parts(param_views(stub.params@)).take(i as int),
                parts.len() == i,
            decreases stub.params.len() - i,
        {
            let (kw, ty) = (&stub.params[i].0, &stub.params[i].1);
            let mut p = to_owned_string(kw.as_str());
            append_str(&mut p, ":(");
            append_string(&mut p, ty);
            append_str(&mut p, ")");
            append_string(&mut p, kw);
            let ghost pp = param_parts(param_views(stub.params@));
            assert(param_views(stub.params@)[i as int] == (kw@, ty@));
            assert(pp[i as int] == p@);
            assert(pp.take(i + 1) =~= pp.take(i as int).push(p@));
            assert(views(parts@.push(p)) =~= views(parts@).push(p@));
            parts.push(p);
            i = i + 1;
        }
        assert(param_parts(param_views(stub.params@)).take(stub.params.len() as int) =~= param_parts(
            param_views(stub.params@),
        ));
        let joined = join_strings(&parts, " ");
        append_string(&mut sig, &joined);
    }
    append_str(&mut sig, " {\n    // TODO: implement\n}");
    sig
}

pub open spec fn stub_views(v: Seq<MissingStub>) -> Seq<(Seq<char>, bool, Seq<char>, Seq<(Seq<char>, Seq<char>)>)> {
    v.map_values(|m: MissingStub| stub_view(m))
}

/// The methods of `ms` whose selector is not among `implemented`, in
/// order.
pub open spec fn not_implemented(
    implemented: Seq<Seq<char>>,
    ms: Seq<(Seq<char>, bool, Seq<char>, Seq<(Seq<char>, Seq<char>)>)>,
) -> Seq<(Seq<char>, bool, Seq<char>, Seq<(Seq<char>, Seq<char>)>)>
    decreases ms.len(),
{
    if ms.len() == 0 {
        seq![]
    } else {
        let rest = not_implemented(implemented, ms.drop_first());
        if implemented.contains(ms[0].0) {
            rest
        } else {
            seq![ms[0]] + rest
        }
    }
}

/// The required methods of the protocols `protos` (one list each) that
/// are not implemented, protocol by protocol.
pub open spec fn missing_methods(
    implemented: Seq<Seq<char>>,
    protos: Seq<Seq<(Seq<char>, bool, Seq<char>, Seq<(Seq<char>, Seq<char>)>)>>,
) -> Seq<(Seq<char>, bool, Seq<char>, Seq<(Seq<char>, Seq<char>)>)>
    decreases protos.len(),
{
    if protos.len() == 0 {
        seq![]
    } else {
        not_implemented(implemented, protos[0]) + missing_methods(implemented, protos.drop_first())
    }
}

fn is_implemented(implemented: &Vec<String>, sel: &String) -> (b: bool)
    ensures
        b == views(implemented@).contains(sel@),
{
    let mut k: usize = 0;
    while k < implemented.len()
        invariant
            k <= implemented.len(),
            forall|j: int| 0 <= j < k ==> implemented@[j]@ != sel@,
        decreases implemented.len() - k,
    {
        if str_eq(implemented[k].as_str(), sel.as_str()) {
            assert(views(implemented@)[k as int] == sel@);
            return true;
        }
        k = k + 1;
    }
    assert forall|j: int| 0 <= j < views(implemented@).len() implies views(implemented@)[j] != sel@ by {
        assert(views(implemented@)[j] == implemented@[j]@);
    }
    false
}

/// The required protocol methods (`protocol_methods`, one list per
/// protocol) whose selectors are not among `implemented`.
pub fn compute_missing_stubs(implemented: &Vec<String>, protocol_methods: Vec<Vec<MissingStub>>) -> (r: Vec<MissingStub>)
    ensures
        stub_views(r@) == missing_methods(
            views(implemented@),
            protocol_methods@.map_values(|ms: Vec<MissingStub>| stub_views(ms@)),
        ),
{
    let ghost impl_v = views(implemented@);
    let ghost all = protocol_methods@.map_values(|ms: Vec<MissingStub>| stub_views(ms@));
    let mut protos = protocol_methods;
    let mut out: Vec<MissingStub> = Vec::new();
    let ghost mut done: nat = 0;
    assert(all.skip(0) =~= all);
    while protos.len() > 0
        invariant
            impl_v == views(implemented@),
            done + protos.len() == all.len(),
            protos@.map_values(|ms: Vec<MissingStub>| stub_views(ms@)) == all.skip(done as int),
            stub_views(out@) + missing_methods(impl_v, all.skip(done as int)) == missing_methods(impl_v, all),
        decreases protos.len(),
    {
        let ghost cur = all.skip(done as int);
        let mut ms = protos.remove(0);
        assert(stub_views(ms@) == cur[0]);
        assert(protos@.map_values(|ms: Vec<MissingStub>| stub_views(ms@)) =~= cur.drop_first());
        assert(cur.drop_first() =~= all.skip(done + 1 as int));
        let ghost first = stub_views(ms@);
        let ghost start = stub_views(out@);
        assert(first.skip(0) =~= first);
        while ms.len() > 0
            invariant
                impl_v == views(implemented@),
                stub_views(ms@) == first.skip(first.len() - ms.len()),
                ms.len() <= first.len(),
                stub_views(out@) + not_implemented(impl_v, stub_views(ms@)) == start + not_implemented(impl_v, first),
            decreases ms.len(),
        {
            let ghost rest_v = stub_views(ms@);
            let m = ms.remove(0);
            assert(stub_view(m) == rest_v[0]);
            assert(stub_views(ms@) =~= rest_v.drop_first());
            assert(rest_v.drop_first() =~= first.skip(first.len() - ms.len()));
            if !is_implemented(implemented, &m.selector) {
                let ghost before = stub_views(out@);
                out.push(m);
                assert(stub_views(out@) =~= before.push(rest_v[0]));
                assert(before.push(rest_v[0]) + not_implemented(impl_v, rest_v.drop_first()) =~= before + (seq![rest_v[0]]
                    + not_implemented(impl_v, rest_v.drop_first())));
            }
        }
        assert(stub_views(ms@) =~= Seq::<(Seq<char>, bool, Seq<char>, Seq<(Seq<char>, Seq<char>)>)>::empty());
        proof {
            done = done + 1;
        }
    }
    out
}

/// The decimal digits of `n`.
pub open spec fn decimal(n: nat) -> Seq<char>
    decreases n,
{
    if n < 10 {
        seq![digit(n)]
    } else {
        decimal(n / 10) + seq![digit(n % 10)]
    }
}

pub open spec fn digit(d: nat) -> char {
    if d == 0 {
        '0'
    } else if d == 1 {
        '1'
    } else if d == 2 {
        '2'
    } else if d == 3 {
        '3'
    } else if d == 4 {
        '4'
    } else if d == 5 {
        '5'
    } else if d == 6 {
        '6'
    } else if d == 7 {
        '7'
    } else if d == 8 {
        '8'
    } else {
        '9'
    }
}

fn digit_char(d: usize) -> (c: char)
    requires
        d < 10,
    ensures
        c == digit(d as nat),
{
    if d == 0 {
        '0'
    } else if d == 1 {
        '1'
    } else if d == 2 {
        '2'
    } else if d == 3 {
        '3'
    } else if d == 4 {
        '4'
    } else if d == 5 {
        '5'
    } else if d == 6 {
        '6'
    } else if d == 7 {
        '7'
    } else if d == 8 {
        '8'
    } else {
        '9'
    }
}

/// `n` in decimal.
pub fn decimal_string(n: usize) -> (r: String)
    ensures
        r@ == decimal(n as nat),
    decreases n,
{
    if n < 10 {
        let mut s = String::new();
        crate::text::push_char(&mut s, digit_char(n));
        assert(s@ =~= seq![digit(n as nat)]);
        s
    } else {
        let mut s = decimal_string(n / 10);
        crate::text::push_char(&mut s, digit_char(n % 10));
        s
    }
}

/// The title of the action adding `n` stubs.
pub open spec fn stubs_title(n: nat) -> Seq<char> {
    "Add "@ + decimal(n) + " missing protocol stub"@ + (if n == 1 {
        Seq::<char>::empty()
    } else {
        "s"@
    })
}

/// The action inserting the stubs `stubs` into the `@implementation` of
/// the document `uri` whose extent ends on (1-based) line `end_line`: one
/// edit at the start of the line two above (the line before `@end`),
/// inserting the stub texts separated by blank lines; none when there are
/// no stubs.
pub fn stubs_action(stubs: &Vec<MissingStub>, end_line: u32, uri: &str) -> (r: Option<CodeAction>)
    ensures
        stubs.len() == 0 ==> r is None,
        stubs.len() > 0 ==> (r matches Some(a) && a.title@ == stubs_title(stubs.len() as nat) && a.uri@ == uri@
            && a.is_preferred && a.edits@.len() == 1 && a.edits@[0].range == (Range {
            start: pos(if end_line >= 2 { end_line - 2 } else { 0 }, 0),
            end: pos(if end_line >= 2 { end_line - 2 } else { 0 }, 0),
        }) && a.edits@[0].new_text@ == join_by(
            stub_views(stubs@).map_values(|s: (Seq<char>, bool, Seq<char>, Seq<(Seq<char>, Seq<char>)>)| stub_text(s)),
            "\n\n"@,
        )),
{
    if stubs.len() == 0 {
        return None;
    }
    let mut texts: Vec<String> = Vec::new();
    let mut i: usize = 0;
    let ghost want = stub_views(stubs@).map_values(|s: (Seq<char>, bool, Seq<char>, Seq<(Seq<char>, Seq<char>)>)| stub_text(s));
    while i < stubs.len()
        invariant
            i <= stubs.len(),
            texts.len() == i,
            want == stub_views(stubs@).map_values(|s: (Seq<char>, bool, Seq<char>, Seq<(Seq<char>, Seq<char>)>)| stub_text(s)),
            views(texts@) == want.take(i as int),
        decreases stubs.len() - i,
    {
        let t = generate_stub_text(&stubs[i]);
        assert(t@ == want[i as int]);
        assert(views(texts@.push(t)) =~= want.take(i + 1));
        texts.push(t);
        i = i + 1;
    }
    assert(want.take(stubs.len() as int) =~= want);
    let text = join_strings(&texts, "\n\n");
    let line = end_line.saturating_sub(2);
    let at = Position { line, character: 0 };
    let mut title = to_owned_string("Add ");
    let n = decimal_string(stubs.len());
    append_string(&mut title, &n);
    append_str(&mut title, " missing protocol stub");
    if stubs.len() != 1 {
        append_str(&mut title, "s");
    } else {
        assert(title@ =~= title@ + Seq::<char>::empty());
    }
    let mut edits: Vec<TextEdit> = Vec::new();
    edits.push(TextEdit { range: Range { start: at, end: at }, new_text: text });
    Some(CodeAction { title, uri: to_owned_string(uri), edits, is_preferred: true })
}

} // verus!
