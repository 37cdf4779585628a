//! File-path helpers built on `std::path`.
//!
//! The path normalisation rules of `std::path` (components, trailing
//! separators, `.` and `..`) are left to the standard library: the
//! results of `Path::file_name`, `Path::parent`, `Path::join` and
//! `Path::with_extension` are named by spec functions.  How a file name
//! splits into stem and extension is stated here, as the documentation of
//! `Path::extension` and `Path::file_stem` gives it.

use vstd::prelude::*;

use crate::text::{chars_of, has_char, last_of, rfind_char, string_of, to_owned_string, views};

verus! {

/// `Path::file_name` of a path.
pub uninterp spec fn file_name_of(p: Seq<char>) -> Option<Seq<char>>;

/// `Path::parent` of a path.
pub uninterp spec fn parent_of(p: Seq<char>) -> Option<Seq<char>>;

/// `Path::join`.
pub uninterp spec fn joined(base: Seq<char>, rest: Seq<char>) -> Seq<char>;

/// `Path::with_extension`.
pub uninterp spec fn with_ext(p: Seq<char>, ext: Seq<char>) -> Seq<char>;

/// `Path::file_name`, as an owned string.
#[verifier::external_body]
pub(crate) fn path_file_name(p: &str) -> (r: Option<String>)
    ensures
        match r {
            Some(n) => file_name_of(p@) == Some(n@),
            None => file_name_of(p@) is None,
        },
{
    std::path::Path::new(p).file_name().map(|n| n.to_string_lossy().into_owned())
}

/// `Path::parent`, as an owned string.  The parent is the path without
/// its final component, so it is shorter than the path.
#[verifier::external_body]
pub(crate) fn path_parent(p: &str) -> (r: Option<String>)
    ensures
        match r {
            Some(n) => parent_of(p@) == Some(n@) && n@.len() < p@.len(),
            None => parent_of(p@) is None,
        },
{
    std::path::Path::new(p).parent().map(|n| n.to_string_lossy().into_owned())
}

/// `Path::join`, as an owned string.
#[verifier::external_body]
pub(crate) fn path_join(base: &str, rest: &str) -> (r: String)
    ensures
        r@ == joined(base@, rest@),
{
    std::path::Path::new(base).join(rest).to_string_lossy().into_owned()
}

/// `Path::with_extension`, as an owned string.  `PathBuf::set_extension`,
/// on which it rests, panics when the extension holds a path separator,
/// so such an extension is not admitted.
#[verifier::external_body]
pub(crate) fn path_with_extension(p: &str, ext: &str) -> (r: String)
    requires
        !has_char(ext@, '/'),
        !has_char(ext@, '\\'),
    ensures
        r@ == with_ext(p@, ext@),
{
    std::path::Path::new(p).with_extension(ext).to_string_lossy().into_owned()
}

/// `Path::exists`: whether the file system holds something at `p`.  The
/// answer depends on the file system, so nothing is stated of it.
#[verifier::external_body]
pub(crate) fn path_exists(p: &str) -> bool {
    std::path::Path::new(p).exists()
}

/// The first of `cands` whose answer in `answers` is `true` (the answers
/// to "does it exist?", in the same order), or `None` when no answer is.
pub open spec fn first_present(cands: Seq<Seq<char>>, answers: Seq<bool>) -> Option<Seq<char>>
    decreases cands.len(),
{
    if cands.len() == 0 || answers.len() == 0 {
        None
    } else if answers[0] {
        Some(cands[0])
    } else {
        first_present(cands.drop_first(), answers.drop_first())
    }
}

/// The first of `cands` whose existence answer is `true`.
pub fn first_existing(cands: &Vec<String>, answers: &Vec<bool>) -> (r: Option<String>)
    requires
        cands.len() == answers.len(),
    ensures
        match r {
            Some(c) => first_present(views(cands@), answers@) == Some(c@),
            None => first_present(views(cands@), answers@) is None,
        },
{
    let ghost cs = views(cands@);
    let mut i: usize = 0;
    assert(cs.skip(0) =~= cs);
    assert(answers@.skip(0) =~= answers@);
    while i < cands.len()
        invariant
            i <= cands.len() == answers.len(),
            cs == views(cands@),
            first_present(cs, answers@) == first_present(cs.skip(i as int), answers@.skip(i as int)),
        decreases cands.len() - i,
    {
        assert(cs.skip(i as int).drop_first() =~= cs.skip(i + 1));
        assert(answers@.skip(i as int).drop_first() =~= answers@.skip(i + 1));
        if answers[i] {
            return Some(cands[i].clone());
        }
        i = i + 1;
    }
    None
}

/// Asks the file system, for each path in turn, whether something lies
/// there.
pub fn existence_answers(paths: &Vec<String>) -> (r: Vec<bool>)
    ensures
        r.len() == paths.len(),
{
    let mut r: Vec<bool> = Vec::new();
    let mut i: usize = 0;
    while i < paths.len()
        invariant
            i <= paths.len(),
            r.len() == i,
        decreases paths.len() - i,
    {
        r.push(path_exists(paths[i].as_str()));
        i = i + 1;
    }
    r
}

/// The extension of a file name: the part after the final `.`, unless the
/// name has no `.` or its only `.` is the first character, or the name is
/// `..`.
pub open spec fn extension_of(name: Seq<char>) -> Option<Seq<char>> {
    let k = last_of(name, '.');
    if name == ".."@ || k <= 0 {
        None
    } else {
        Some(name.skip(k + 1))
    }
}

/// The stem of a file name: the part before the final `.`, or the whole
/// name when `extension_of` gives none.
pub open spec fn stem_of(name: Seq<char>) -> Seq<char> {
    let k = last_of(name, '.');
    if name == ".."@ || k <= 0 {
        name
    } else {
        name.take(k)
    }
}

/// `Path::extension` of a path.
pub open spec fn path_extension(p: Seq<char>) -> Option<Seq<char>> {
    match file_name_of(p) {
        Some(n) => extension_of(n),
        None => None,
    }
}

/// `Path::file_stem` of a path.
pub open spec fn path_stem(p: Seq<char>) -> Option<Seq<char>> {
    match file_name_of(p) {
        Some(n) => Some(stem_of(n)),
        None => None,
    }
}

/// Splits a file name into stem and extension.
pub fn split_file_name(name: &str) -> (r: (String, Option<String>))
    ensures
        r.0@ == stem_of(name@),
        match r.1 {
            Some(e) => extension_of(name@) == Some(e@),
            None => extension_of(name@) is None,
        },
{
    let v = chars_of(name);
    let is_dotdot = v.len() == 2 && v[0] == '.' && v[1] == '.';
    proof {
        reveal_strlit("..");
        if !is_dotdot {
            assert(name@ != ".."@);
        } else {
            assert(name@ =~= ".."@);
        }
    }
    if is_dotdot {
        return (to_owned_string(name), None);
    }
    match rfind_char(&v, '.') {
        Some(k) if k > 0 => {
            let stem = string_of(&v, 0, k);
            let ext = string_of(&v, k + 1, v.len());
            assert(v@.subrange(0, k as int) =~= name@.take(k as int));
            assert(v@.subrange(k + 1, v.len() as int) =~= name@.skip(k + 1));
            (stem, Some(ext))
        },
        _ => (to_owned_string(name), None),
    }
}

/// `Path::extension`, as an owned string.
pub fn extension(p: &str) -> (r: Option<String>)
    ensures
        match r {
            Some(e) => path_extension(p@) == Some(e@),
            None => path_extension(p@) is None,
        },
{
    match path_file_name(p) {
        Some(n) => split_file_name(n.as_str()).1,
        None => None,
    }
}

/// `Path::file_stem`, as an owned string.
pub fn file_stem(p: &str) -> (r: Option<String>)
    ensures
        match r {
            Some(e) => path_stem(p@) == Some(e@),
            None => path_stem(p@) is None,
        },
{
    match path_file_name(p) {
        Some(n) => Some(split_file_name(n.as_str()).0),
        None => None,
    }
}

} // verus!
