//! Whole-document formatting with `clang-format`.
//!
//! The server runs `clang-format` on the document; the binary to run and
//! the edit that replaces the document by the formatted text are chosen
//! here.

use vstd::prelude::*;

use crate::lsp::{pos, Position, Range, TextEdit};
use crate::paths::{existence_answers, first_existing, first_present};
use crate::text::{char_utf8_len, chars_of, str_eq, to_owned_string, utf8_len, views};

verus! {

/// The places where `clang-format` is looked for, in order: Homebrew LLVM
/// on Apple Silicon, Homebrew LLVM on Intel, the one Xcode installs.
pub open spec fn clang_format_candidates() -> Seq<Seq<char>> {
    seq![
        "/opt/homebrew/opt/llvm/bin/clang-format"@,
        "/usr/local/opt/llvm/bin/clang-format"@,
        "/usr/bin/clang-format"@,
    ]
}

/// The `clang-format` to run, given the existence answers of the
/// candidates (see `clang_format_candidates`): the first that exists, else
/// the bare name, left to the search path.
pub open spec fn clang_format_choice(answers: Seq<bool>) -> Seq<char> {
    match first_present(clang_format_candidates(), answers) {
        Some(p) => p,
        None => "clang-format"@,
    }
}

fn clang_format_paths() -> (r: Vec<String>)
    ensures
        views(r@) == clang_format_candidates(),
{
    let mut r: Vec<String> = Vec::new();
    r.push(to_owned_string("/opt/homebrew/opt/llvm/bin/clang-format"));
    r.push(to_owned_string("/usr/local/opt/llvm/bin/clang-format"));
    r.push(to_owned_string("/usr/bin/clang-format"));
    assert(views(r@) =~= clang_format_candidates());
    r
}

/// The `clang-format` binary for the given existence answers of its
/// candidates (see `clang_format_choice`).
pub fn choose_clang_format(answers: &Vec<bool>) -> (r: String)
    requires
        answers.len() == 3,
    ensures
        r@ == clang_format_choice(answers@),
{
    let cands = clang_format_paths();
    match first_existing(&cands, answers) {
        Some(p) => p,
        None => to_owned_string("clang-format"),
    }
}

/// Find the `clang-format` binary: the first candidate that exists, else
/// the bare name `clang-format`, left to the search path.
pub fn find_clang_format() -> (r: String)
    ensures
        exists|answers: Seq<bool>| answers.len() == 3 && r@ == #[trigger] clang_format_choice(answers),
{
    let cands = clang_format_paths();
    let answers = existence_answers(&cands);
    choose_clang_format(&answers)
}

/// The position just after the last character of `s`: its number of
/// line breaks, and the bytes after the last one.
pub open spec fn end_position(s: Seq<char>) -> (nat, nat)
    decreases s.len(),
{
    if s.len() == 0 {
        (0, 0)
    } else {
        let (l, c) = end_position(s.drop_last());
        if s.last() == '\n' {
            (l + 1, 0)
        } else {
            (l, c + utf8_len(s.last()))
        }
    }
}

/// The edit replacing `source` by `formatted`: none when they are equal;
/// otherwise one edit over the whole document, from the start to the
/// position just after its last character, holding the formatted text.
pub open spec fn format_edit(source: Seq<char>, formatted: Seq<char>) -> Option<(Range, Seq<char>)> {
    if formatted == source {
        None
    } else {
        let (l, c) = end_position(source);
        Some((Range { start: pos(0, 0), end: Position { line: l as u32, character: c as u32 } }, formatted))
    }
}

/// The edits that turn `source` into `formatted`, the output of
/// `clang-format`.
pub fn format_edits(source: &str, formatted: String) -> (r: Vec<TextEdit>)
    ensures
        match format_edit(source@, formatted@) {
            None => r@.len() == 0,
            Some((range, text)) => r@.len() == 1 && r@[0].range == range && r@[0].new_text@ == text,
        },
{
    if str_eq(formatted.as_str(), source) {
        return Vec::new();
    }
    let v = chars_of(source);
    let mut line: u128 = 0;
    let mut col: u128 = 0;
    let mut i: usize = 0;
    while i < v.len()
        invariant
            i <= v.len(),
            line <= i,
            col <= 4 * i,
            (line as nat, col as nat) == end_position(v@.take(i as int)),
        decreases v.len() - i,
    {
        assert(v@.take(i + 1).drop_last() =~= v@.take(i as int));
        assert(v@.take(i + 1).last() == v@[i as int]);
        if v[i] == '\n' {
            line = line + 1;
            col = 0;
        } else {
            col = col + char_utf8_len(v[i]) as u128;
        }
        i = i + 1;
    }
    assert(v@.take(i as int) =~= v@);
    let mut r: Vec<TextEdit> = Vec::new();
    r.push(
        TextEdit {
            range: Range {
                start: Position { line: 0, character: 0 },
                end: Position { line: line as u32, character: col as u32 },
            },
            new_text: formatted,
        },
    );
    r
}

} // verus!
