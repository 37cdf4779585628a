//! Text-based code actions that do not require libclang.
//!
//! 1. **Generate `@interface` stub** — a `.m` / `.mm` file with an
//!    `@implementation Foo` block and no `@interface Foo` in the same file
//!    gets a stub `@interface Foo : NSObject … @end` at the top.
//! 2. **Add `NS_ASSUME_NONNULL_BEGIN/END`** — a header without
//!    `NS_ASSUME_NONNULL_BEGIN` gets the macros around its declarations.

use vstd::prelude::*;

use crate::lsp::{pos, rng, CodeAction, Position, Range, TextEdit};
use crate::text::{
    append_str, byte_len, lemma_byte_len_lower, chars_of, contains, has_char, lemma_lines_len, line_spans, lines, range_contains_word, contains_word,
    range_find_char, range_starts_with, starts_with, str_contains, str_eq, string_of,
    to_owned_string, trim, trim_range, word_spans, words, append_string,
};

verus! {

/// Code-action parameters passed from the server.
pub struct CodeActionContext<'a> {
    pub uri: &'a str,
    /// Raw source text of the document.
    pub source: &'a str,
    /// File extension of the document (`h`, `m`, `mm`, …).
    pub extension: &'a str,
}

/// The class named by an `@implementation` line (not a category).
pub open spec fn impl_class_of(line: Seq<char>) -> Option<Seq<char>> {
    let t = trim(line);
    if starts_with(t, "@implementation "@) {
        let rest = t.skip(16);
        if words(rest).len() == 0 || has_char(rest, '(') {
            None
        } else {
            Some(words(rest)[0])
        }
    } else {
        None
    }
}

/// The classes implemented in the file, in order.
pub open spec fn impl_classes(ls: Seq<Seq<char>>) -> Seq<Seq<char>>
    decreases ls.len(),
{
    if ls.len() == 0 {
        seq![]
    } else {
        let rest = impl_classes(ls.drop_last());
        match impl_class_of(ls.last()) {
            Some(c) => rest.push(c),
            None => rest,
        }
    }
}

/// Some line of the file is an `@interface` line that names `name` as a
/// whole identifier.
pub open spec fn has_interface(ls: Seq<Seq<char>>, name: Seq<char>) -> bool {
    exists|i: int|
        0 <= i < ls.len() && starts_with(trim(#[trigger] ls[i]), "@interface "@) && contains_word(
            trim(ls[i]),
            name,
        )
}

/// The implemented classes without an `@interface`, in order.
pub open spec fn missing_interfaces(ls: Seq<Seq<char>>, classes: Seq<Seq<char>>) -> Seq<Seq<char>>
    decreases classes.len(),
{
    if classes.len() == 0 {
        seq![]
    } else {
        let rest = missing_interfaces(ls, classes.drop_last());
        if has_interface(ls, classes.last()) {
            rest
        } else {
            rest.push(classes.last())
        }
    }
}

/// `@interface C : NSObject\n\n@end\n\n` for each class.
pub open spec fn interface_stubs(classes: Seq<Seq<char>>) -> Seq<char>
    decreases classes.len(),
{
    if classes.len() == 0 {
        seq![]
    } else {
        interface_stubs(classes.drop_last()) + "@interface "@ + classes.last()
            + " : NSObject\n\n@end\n\n"@
    }
}

/// The names separated by `", "`.
pub open spec fn comma_join(names: Seq<Seq<char>>) -> Seq<char>
    decreases names.len(),
{
    if names.len() == 0 {
        seq![]
    } else if names.len() == 1 {
        names[0]
    } else {
        comma_join(names.drop_last()) + ", "@ + names.last()
    }
}

/// The stub action offered for the source (`None` when every implemented
/// class already has an `@interface`): title and inserted text.
pub open spec fn interface_action_spec(source: Seq<char>) -> Option<(Seq<char>, Seq<char>)> {
    let ls = lines(source);
    let missing = missing_interfaces(ls, impl_classes(ls));
    if missing.len() == 0 {
        None
    } else {
        Some(("Generate @interface stub for "@ + comma_join(missing), interface_stubs(missing)))
    }
}

/// An action with one edit inserting `text` at `at`.
pub open spec fn single_insert(a: CodeAction, at: Position, text: Seq<char>) -> bool {
    &&& a.edits@.len() == 1
    &&& a.edits@[0].range == Range { start: at, end: at }
    &&& a.edits@[0].new_text@ == text
}

/// The class named on line `v[a..b]`, as a span of `v`.
fn impl_class_span(v: &Vec<char>, a: usize, b: usize, prefix: &Vec<char>) -> (r: Option<(usize, usize)>)
    requires
        a <= b <= v.len(),
        prefix@ == "@implementation "@,
    ensures
        match r {
            Some((x, y)) => x <= y <= v.len() && impl_class_of(v@.subrange(a as int, b as int))
                == Some(v@.subrange(x as int, y as int)),
            None => impl_class_of(v@.subrange(a as int, b as int)) is None,
        },
{
    let ghost line = v@.subrange(a as int, b as int);
    let (ta, tb) = trim_range(v, a, b);
    let ghost t = trim(line);
    assert(v@.subrange(ta as int, tb as int) == t);
    if !range_starts_with(v, ta, tb, prefix) {
        return None;
    }
    proof {
        reveal_strlit("@implementation ");
    }
    let rs = ta + 16;
    assert(v@.subrange(rs as int, tb as int) =~= t.skip(16));
    let ws = word_spans(v, rs, tb);
    if ws.len() == 0 {
        return None;
    }
    if let Some(j) = range_find_char(v, rs, tb, '(') {
        assert(t.skip(16)[j as int] == '(');
        assert(has_char(t.skip(16), '('));
        return None;
    }
    let (x, y) = ws[0];
    assert(v@.subrange(x as int, y as int) == words(t.skip(16))[0]);
    Some((x, y))
}

/// `a` is the `@interface` action for `source` in the document `uri`:
/// the title and inserted text of `interface_action_spec`, one insertion
/// at the top of the file, not preferred.
pub open spec fn interface_action_ok(source: Seq<char>, uri: Seq<char>, a: CodeAction) -> bool {
    match interface_action_spec(source) {
        Some((title, text)) => a.title@ == title && a.uri@ == uri && !a.is_preferred && single_insert(
            a,
            pos(0, 0),
            text,
        ),
        None => false,
    }
}

/// If the file has `@implementation ClassName` but no `@interface
/// ClassName`, offer to insert a minimal `@interface ClassName : NSObject
/// … @end` at the top of the file.
pub fn generate_interface_action(ctx: &CodeActionContext) -> (r: Option<CodeAction>)
    ensures
        match interface_action_spec(ctx.source@) {
            None => r is None,
            Some(_) => r matches Some(a) && interface_action_ok(ctx.source@, ctx.uri@, a),
        },
{
    let v = chars_of(ctx.source);
    let spans = line_spans(&v);
    let ghost ls = lines(v@);
    let prefix = chars_of("@implementation ");
    // Collect all implementation class names.
    let mut classes: Vec<(usize, usize)> = Vec::new();
    let mut k: usize = 0;
    while k < spans.len()
        invariant
            v@ == ctx.source@,
            ls == lines(v@),
            prefix@ == "@implementation "@,
            spans.len() == ls.len(),
            forall|j: int| #![trigger spans@[j]] 0 <= j < spans.len() ==> spans@[j].0 <= spans@[j].1 <= v.len(),
            forall|j: int|
                #![trigger spans@[j]]
                0 <= j < spans.len() ==> v@.subrange(spans@[j].0 as int, spans@[j].1 as int) == ls[j],
            k <= spans.len(),
            forall|j: int| #![trigger classes@[j]] 0 <= j < classes.len() ==> classes@[j].0 <= classes@[j].1 <= v.len(),
            classes@.map_values(|c: (usize, usize)| v@.subrange(c.0 as int, c.1 as int)) == impl_classes(
                ls.take(k as int),
            ),
        decreases spans.len() - k,
    {
        let (a, b) = spans[k];
        assert(ls.take(k + 1).drop_last() =~= ls.take(k as int));
        assert(ls.take(k + 1).last() == ls[k as int]);
        let ghost before = classes@;
        match impl_class_span(&v, a, b, &prefix) {
            Some(c) => {
                classes.push(c);
                assert(classes@.map_values(|c: (usize, usize)| v@.subrange(c.0 as int, c.1 as int))
                    =~= before.map_values(|c: (usize, usize)| v@.subrange(c.0 as int, c.1 as int)).push(
                    v@.subrange(c.0 as int, c.1 as int),
                ));
            },
            None => {},
        }
        k = k + 1;
    }
    assert(ls.take(k as int) =~= ls);
    let ghost all = impl_classes(ls);
    if classes.len() == 0 {
        assert(missing_interfaces(ls, all) =~= Seq::<Seq<char>>::empty());
        return None;
    }
    // Keep the classes that have no @interface line in this file.
    let iface = chars_of("@interface ");
    let mut missing: Vec<String> = Vec::new();
    let mut c: usize = 0;
    while c < classes.len()
        invariant
            v@ == ctx.source@,
            ls == lines(v@),
            iface@ == "@interface "@,
            spans.len() == ls.len(),
            forall|j: int| #![trigger spans@[j]] 0 <= j < spans.len() ==> spans@[j].0 <= spans@[j].1 <= v.len(),
            forall|j: int|
                #![trigger spans@[j]]
                0 <= j < spans.len() ==> v@.subrange(spans@[j].0 as int, spans@[j].1 as int) == ls[j],
            forall|j: int| #![trigger classes@[j]] 0 <= j < classes.len() ==> classes@[j].0 <= classes@[j].1 <= v.len(),
            classes@.map_values(|c: (usize, usize)| v@.subrange(c.0 as int, c.1 as int)) == all,
            c <= classes.len(),
            missing@.map_values(|s: String| s@) == missing_interfaces(ls, all.take(c as int)),
        decreases classes.len() - c,
    {
        let (x, y) = classes[c];
        let name = string_of(&v, x, y);
        let namev = chars_of(name.as_str());
        assert(name@ == all[c as int]);
        assert(all.take(c + 1).drop_last() =~= all.take(c as int));
        assert(all.take(c + 1).last() == all[c as int]);
        // Does some line mention it in an @interface declaration?
        let mut found = false;
        let mut k: usize = 0;
        while !found && k < spans.len()
            invariant
                v@ == ctx.source@,
                ls == lines(v@),
                iface@ == "@interface "@,
                spans.len() == ls.len(),
                forall|j: int| #![trigger spans@[j]] 0 <= j < spans.len() ==> spans@[j].0 <= spans@[j].1 <= v.len(),
                forall|j: int|
                    #![trigger spans@[j]]
                    0 <= j < spans.len() ==> v@.subrange(spans@[j].0 as int, spans@[j].1 as int) == ls[j],
                k <= spans.len(),
                found ==> has_interface(ls, namev@),
                !found ==> forall|j: int|
                    0 <= j < k ==> !(starts_with(trim(#[trigger] ls[j]), "@interface "@) && contains_word(
                        trim(ls[j]),
                        namev@,
                    )),
            decreases spans.len() - k + (if found { 0int } else { 1int }),
        {
            let (a, b) = spans[k];
            let (ta, tb) = trim_range(&v, a, b);
            assert(v@.subrange(a as int, b as int) == ls[k as int]);
            if range_starts_with(&v, ta, tb, &iface) && range_contains_word(&v, ta, tb, &namev) {
                found = true;
            } else {
                k = k + 1;
            }
        }
        if !found {
            assert(!has_interface(ls, namev@));
            let ghost before = missing@;
            missing.push(name);
            assert(missing@.map_values(|s: String| s@) =~= before.map_values(|s: String| s@).push(namev@));
        } else {
            assert(has_interface(ls, namev@));
        }
        c = c + 1;
    }
    assert(all.take(c as int) =~= all);
    let ghost miss = missing_interfaces(ls, all);
    if missing.len() == 0 {
        assert(missing@.map_values(|s: String| s@).len() == 0);
        return None;
    }
    // Build the stub text and the title.
    let mut stub = String::new();
    let mut title = String::new();
    append_str(&mut title, "Generate @interface stub for ");
    let ghost title0 = title@;
    let mut i: usize = 0;
    while i < missing.len()
        invariant
            i <= missing.len(),
            missing@.map_values(|s: String| s@) == miss,
            stub@ == interface_stubs(miss.take(i as int)),
            title@ == title0 + comma_join(miss.take(i as int)),
            title0 == "Generate @interface stub for "@,
        decreases missing.len() - i,
    {
        assert(miss.take(i + 1).drop_last() =~= miss.take(i as int));
        assert(miss.take(i + 1).last() == missing@[i as int]@);
        append_str(&mut stub, "@interface ");
        append_string(&mut stub, &missing[i]);
        append_str(&mut stub, " : NSObject\n\n@end\n\n");
        if i > 0 {
            append_str(&mut title, ", ");
        } else {
            assert(miss.take(1) =~= seq![miss[0]]);
        }
        append_string(&mut title, &missing[i]);
        assert(title@ =~= title0 + comma_join(miss.take(i + 1)));
        i = i + 1;
    }
    assert(miss.take(i as int) =~= miss);
    let at = Position { line: 0, character: 0 };
    let mut edits: Vec<TextEdit> = Vec::new();
    edits.push(TextEdit { range: Range { start: at, end: at }, new_text: stub });
    Some(CodeAction { title, uri: to_owned_string(ctx.uri), edits, is_preferred: false })
}

/// The last `#import` / `#include` line, or -1 when there is none:
/// `NS_ASSUME_NONNULL_BEGIN` goes on the line after it (the top of the
/// file when there is no import).
pub open spec fn last_import_line(ls: Seq<Seq<char>>) -> int
    decreases ls.len(),
{
    if ls.len() == 0 {
        -1
    } else if starts_with(trim(ls.last()), "#import"@) || starts_with(trim(ls.last()), "#include"@) {
        ls.len() - 1
    } else {
        last_import_line(ls.drop_last())
    }
}

/// `a` is the nonnull-region action for `source` in the document `uri`:
/// `NS_ASSUME_NONNULL_BEGIN` inserted on the line after the last import,
/// `NS_ASSUME_NONNULL_END` after the last line, not preferred.
pub open spec fn nonnull_action_ok(source: Seq<char>, uri: Seq<char>, a: CodeAction) -> bool {
    let ls = lines(source);
    &&& a.title@ == "Add NS_ASSUME_NONNULL_BEGIN/END"@
    &&& a.uri@ == uri
    &&& !a.is_preferred
    &&& a.edits@.len() == 2
    &&& a.edits@[0].range == rng(last_import_line(ls) + 1, 0, last_import_line(ls) + 1, 0)
    &&& a.edits@[0].new_text@ == "\nNS_ASSUME_NONNULL_BEGIN\n"@
    &&& a.edits@[1].range == rng(ls.len() as int, 0, ls.len() as int, 0)
    &&& a.edits@[1].new_text@ == "\nNS_ASSUME_NONNULL_END\n"@
}

/// If the header does not already contain `NS_ASSUME_NONNULL_BEGIN`,
/// offer to insert `NS_ASSUME_NONNULL_BEGIN` after the last import (at
/// the top of the file when there is none) and `NS_ASSUME_NONNULL_END` at
/// the end of the file.  Positions are `u32`, so the text is at most
/// `u32::MAX` bytes long.
pub fn add_nonnull_action(ctx: &CodeActionContext) -> (r: Option<CodeAction>)
    requires
        byte_len(ctx.source@) < 0x1_0000_0000,
    ensures
        contains(ctx.source@, "NS_ASSUME_NONNULL_BEGIN"@) ==> r is None,
        !contains(ctx.source@, "NS_ASSUME_NONNULL_BEGIN"@) ==> (r matches Some(a) && nonnull_action_ok(
            ctx.source@,
            ctx.uri@,
            a,
        )),
{
    if str_contains(ctx.source, "NS_ASSUME_NONNULL_BEGIN") {
        return None;
    }
    let v = chars_of(ctx.source);
    let spans = line_spans(&v);
    let ghost ls = lines(v@);
    proof {
        lemma_lines_len(v@);
        lemma_byte_len_lower(v@);
    }
    let imp = chars_of("#import");
    let inc = chars_of("#include");
    // Find the last import/include line.
    let mut insert_after_line: usize = 0;
    let mut done = false;
    let mut k = spans.len();
    assert(ls.take(k as int) =~= ls);
    while !done && k > 0
        invariant
            v@ == ctx.source@,
            ls == lines(v@),
            imp@ == "#import"@,
            inc@ == "#include"@,
            spans.len() == ls.len(),
            forall|j: int| #![trigger spans@[j]] 0 <= j < spans.len() ==> spans@[j].0 <= spans@[j].1 <= v.len(),
            forall|j: int|
                #![trigger spans@[j]]
                0 <= j < spans.len() ==> v@.subrange(spans@[j].0 as int, spans@[j].1 as int) == ls[j],
            k <= spans.len(),
            !done ==> last_import_line(ls) == last_import_line(ls.take(k as int)),
            !done ==> insert_after_line == 0,
            done ==> k > 0,
            done ==> insert_after_line == last_import_line(ls) && insert_after_line < spans.len(),
        decreases k + (if done { 0int } else { 1int }),
    {
        let (a, b) = spans[k - 1];
        let (ta, tb) = trim_range(&v, a, b);
        assert(v@.subrange(a as int, b as int) == ls[k - 1]);
        assert(ls.take(k as int).drop_last() =~= ls.take(k - 1));
        assert(ls.take(k as int).last() == ls[k - 1]);
        if range_starts_with(&v, ta, tb, &imp) || range_starts_with(&v, ta, tb, &inc) {
            insert_after_line = k - 1;
            done = true;
        } else {
            k = k - 1;
        }
    }
    assert(!done ==> ls.take(k as int).len() == 0);
    assert(done ==> insert_after_line == last_import_line(ls));
    assert(!done ==> last_import_line(ls) == -1);
    let total_lines = spans.len() as u32;
    let begin_line: u32 = if done { insert_after_line as u32 + 1 } else { 0 };
    let begin_at = Position { line: begin_line, character: 0 };
    let end_at = Position { line: total_lines, character: 0 };
    let mut edits: Vec<TextEdit> = Vec::new();
    edits.push(
        TextEdit {
            range: Range { start: begin_at, end: begin_at },
            new_text: to_owned_string("\nNS_ASSUME_NONNULL_BEGIN\n"),
        },
    );
    edits.push(
        TextEdit {
            range: Range { start: end_at, end: end_at },
            new_text: to_owned_string("\nNS_ASSUME_NONNULL_END\n"),
        },
    );
    Some(
        CodeAction {
            title: to_owned_string("Add NS_ASSUME_NONNULL_BEGIN/END"),
            uri: to_owned_string(ctx.uri),
            edits,
            is_preferred: false,
        },
    )
}

/// Compute the text-based code actions for a document: the `@interface`
/// stub for `.m` / `.mm` files, the nonnull region for `.h` files.
pub fn syntax_code_actions(ctx: &CodeActionContext) -> (actions: Vec<CodeAction>)
    requires
        byte_len(ctx.source@) < 0x1_0000_0000,
    ensures
        actions.len() == if (ctx.extension@ == "m"@ || ctx.extension@ == "mm"@)
            && interface_action_spec(ctx.source@) is Some {
            1int
        } else if ctx.extension@ == "h"@ && !contains(ctx.source@, "NS_ASSUME_NONNULL_BEGIN"@) {
            1int
        } else {
            0int
        },
        (ctx.extension@ == "m"@ || ctx.extension@ == "mm"@) && interface_action_spec(ctx.source@) is Some
            ==> interface_action_ok(ctx.source@, ctx.uri@, actions@[0]),
        ctx.extension@ == "h"@ && !contains(ctx.source@, "NS_ASSUME_NONNULL_BEGIN"@) ==> nonnull_action_ok(
            ctx.source@,
            ctx.uri@,
            actions@[0],
        ),
{
    let mut actions: Vec<CodeAction> = Vec::new();
    proof {
        reveal_strlit("m");
        reveal_strlit("mm");
        reveal_strlit("h");
        assert("h"@[0] != "m"@[0]);
        assert("h"@.len() != "mm"@.len());
        assert("h"@ != "m"@ && "h"@ != "mm"@);
    }
    if str_eq(ctx.extension, "m") || str_eq(ctx.extension, "mm") {
        if let Some(action) = generate_interface_action(ctx) {
            actions.push(action);
        }
    }
    if str_eq(ctx.extension, "h") {
        if let Some(action) = add_nonnull_action(ctx) {
            actions.push(action);
        }
    }
    actions
}

} // verus!
