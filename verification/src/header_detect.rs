//! Detects whether a `.h` file is Objective-C, C, or C++.
//!
//! Detection scans the first 8 KB of the file for ObjC-specific tokens,
//! then for C++ ones (`class `, `template<`, `namespace `, `::`, and
//! `#include <` with a `>`).

use vstd::prelude::*;

use crate::paths::{extension, path_extension};
use crate::text::{
    byte_len, lemma_byte_len_concat,
    char_utf8_len, chars_of, contains, first_occurrence, has_char, occurs_at, range_contains, range_find,
    range_find_char, str_eq, utf8_len,
};

verus! {

#[derive(Debug, Clone, Copy, PartialEq, Eq, Structural)]
pub enum HeaderLanguage {
    ObjC,
    ObjCPlusPlus,
    C,
    Cpp,
}

/// How many leading characters of `s` fit in `n` bytes of UTF-8.
pub open spec fn prefix_count(s: Seq<char>, n: int) -> nat
    decreases s.len(),
{
    if s.len() == 0 || utf8_len(s[0]) > n {
        0
    } else {
        1 + prefix_count(s.drop_first(), n - utf8_len(s[0]))
    }
}

/// The part of the source that is scanned: its first 8192 bytes, cut at
/// the last character boundary at or below that.
pub open spec fn header_sample(s: Seq<char>) -> Seq<char> {
    s.take(prefix_count(s, 8192) as int)
}

pub open spec fn has_objc_marker(s: Seq<char>) -> bool {
    ||| contains(s, "@interface"@)
    ||| contains(s, "@protocol"@)
    ||| contains(s, "@implementation"@)
    ||| contains(s, "@end"@)
    ||| contains(s, "@property"@)
    ||| contains(s, "NS_ASSUME_NONNULL"@)
    ||| contains(s, "FOUNDATION_EXPORT"@)
    ||| contains(s, "#import "@)
}

pub open spec fn has_cpp_marker(s: Seq<char>) -> bool {
    ||| contains(s, "class "@)
    ||| contains(s, "template<"@)
    ||| contains(s, "template <"@)
    ||| contains(s, "namespace "@)
    ||| contains(s, "::"@)
    ||| contains(s, "std::"@)
    ||| contains(s, "#include <"@) && has_char(s.skip(first_occurrence(s, "#include <"@) + 10), '>')
}

/// Heuristic order (first match wins): ObjC markers → ObjC (ObjC++ for
/// `.mm`), C++ markers → C++ (ObjC++ for `.mm`), otherwise C.
pub open spec fn detect_spec(path: Seq<char>, source: Seq<char>) -> HeaderLanguage {
    let sample = header_sample(source);
    let is_objcpp = path_extension(path) == Some("mm"@);
    if has_objc_marker(sample) {
        if is_objcpp {
            HeaderLanguage::ObjCPlusPlus
        } else {
            HeaderLanguage::ObjC
        }
    } else if has_cpp_marker(sample) {
        if is_objcpp {
            HeaderLanguage::ObjCPlusPlus
        } else {
            HeaderLanguage::Cpp
        }
    } else {
        HeaderLanguage::C
    }
}

/// Number of leading characters of `v` that fit in `n` bytes.
fn prefix_count_exec(v: &Vec<char>, n: u128) -> (k: usize)
    ensures
        k == prefix_count(v@, n as int),
        k <= v.len(),
{
    let mut i: usize = 0;
    let mut left: u128 = n;
    assert(v@.skip(0) =~= v@);
    while i < v.len()
        invariant
            i <= v.len(),
            left <= n,
            prefix_count(v@, n as int) == i + prefix_count(v@.skip(i as int), left as int),
        decreases v.len() - i,
    {
        let c = char_utf8_len(v[i]) as u128;
        assert(v@.skip(i as int)[0] == v@[i as int]);
        assert(v@.skip(i as int).drop_first() =~= v@.skip(i + 1));
        if c > left {
            return i;
        }
        left = left - c;
        i = i + 1;
    }
    assert(v@.skip(i as int).len() == 0);
    i
}

fn sample_contains(v: &Vec<char>, k: usize, lit: &str) -> (b: bool)
    requires
        k <= v.len(),
    ensures
        b == contains(v@.take(k as int), lit@),
{
    let w = chars_of(lit);
    assert(v@.subrange(0, k as int) =~= v@.take(k as int));
    range_contains(v, 0, k, &w)
}

/// The first 8 KB sample `v[..k]` holds `#include <` with a `>` after it.
fn angle_include(v: &Vec<char>, k: usize) -> (b: bool)
    requires
        k <= v.len(),
    ensures
        b == (contains(v@.take(k as int), "#include <"@) && has_char(
            v@.take(k as int).skip(first_occurrence(v@.take(k as int), "#include <"@) + 10),
            '>',
        )),
{
    let ghost s = v@.take(k as int);
    assert(v@.subrange(0, k as int) =~= s);
    let w = chars_of("#include <");
    proof {
        reveal_strlit("#include <");
    }
    assert(w@.len() == 10);
    match range_find(v, 0, k, &w) {
        Some(i) => {
            assert(first_occurrence(s, "#include <"@) == i as int) by {
                let c = first_occurrence(s, "#include <"@);
                assert(occurs_at(s, "#include <"@, i as int));
                assert(occurs_at(s, "#include <"@, c) && forall|j: int|
                    0 <= j < c ==> !occurs_at(s, "#include <"@, j));
                assert(!(c < i));
                assert(!(i < c));
            }
            assert(contains(s, "#include <"@));
            let ghost rest = s.skip(i + 10);
            assert(v@.subrange(i + 10, k as int) =~= rest);
            match range_find_char(v, i + 10, k, '>') {
                Some(j) => {
                    assert(rest[j as int] == '>');
                    true
                },
                None => false,
            }
        },
        None => false,
    }
}

/// Infer the language of a `.h` file from its contents.
pub fn detect_header_language(path: &str, source: &str) -> (lang: HeaderLanguage)
    ensures
        lang == detect_spec(path@, source@),
{
    let v = chars_of(source);
    let k = prefix_count_exec(&v, 8192);
    let is_objcpp = match extension(path) {
        Some(e) => str_eq(e.as_str(), "mm"),
        None => false,
    };
    let has_objc = sample_contains(&v, k, "@interface") || sample_contains(&v, k, "@protocol")
        || sample_contains(&v, k, "@implementation") || sample_contains(&v, k, "@end")
        || sample_contains(&v, k, "@property") || sample_contains(&v, k, "NS_ASSUME_NONNULL")
        || sample_contains(&v, k, "FOUNDATION_EXPORT") || sample_contains(&v, k, "#import ");
    if has_objc {
        return if is_objcpp {
            HeaderLanguage::ObjCPlusPlus
        } else {
            HeaderLanguage::ObjC
        };
    }
    let has_cpp = sample_contains(&v, k, "class ") || sample_contains(&v, k, "template<")
        || sample_contains(&v, k, "template <") || sample_contains(&v, k, "namespace ")
        || sample_contains(&v, k, "::") || sample_contains(&v, k, "std::")
        || angle_include(&v, k);
    if has_cpp {
        return if is_objcpp {
            HeaderLanguage::ObjCPlusPlus
        } else {
            HeaderLanguage::Cpp
        };
    }
    HeaderLanguage::C
}

/// The clang `-x` flag value of a language.
pub open spec fn clang_x_flag(lang: HeaderLanguage) -> Seq<char> {
    match lang {
        HeaderLanguage::ObjC => "objective-c-header"@,
        HeaderLanguage::ObjCPlusPlus => "objective-c++-header"@,
        HeaderLanguage::C => "c-header"@,
        HeaderLanguage::Cpp => "c++-header"@,
    }
}

/// Convert a `HeaderLanguage` to the clang `-x` flag value.
pub fn to_clang_x_flag(lang: HeaderLanguage) -> (s: &'static str)
    ensures
        s@ == clang_x_flag(lang),
{
    match lang {
        HeaderLanguage::ObjC => "objective-c-header",
        HeaderLanguage::ObjCPlusPlus => "objective-c++-header",
        HeaderLanguage::C => "c-header",
        HeaderLanguage::Cpp => "c++-header",
    }
}

proof fn lemma_prefix_count_all(s: Seq<char>, n: int)
    requires
        byte_len(s) <= n,
    ensures
        prefix_count(s, n) == s.len(),
    decreases s.len(),
{
    if s.len() > 0 {
        let c = s[0];
        lemma_byte_len_concat(seq![c], s.drop_first());
        assert(seq![c] + s.drop_first() =~= s);
        assert(seq![c].drop_last() =~= Seq::<char>::empty());
        assert(seq![c].last() == c);
        assert(byte_len(Seq::<char>::empty()) == 0);
        assert(byte_len(seq![c]) == byte_len(seq![c].drop_last()) + utf8_len(seq![c].last()));
        assert(byte_len(seq![c]) == utf8_len(c));
        lemma_prefix_count_all(s.drop_first(), n - utf8_len(c));
    }
}

/// The Objective-C markers of a header's text.
pub open spec fn objc_marked(source: Seq<char>) -> bool {
    ||| contains(source, "@interface"@)
    ||| contains(source, "@protocol"@)
    ||| contains(source, "@implementation"@)
    ||| contains(source, "@end"@)
    ||| contains(source, "@property"@)
    ||| contains(source, "NS_ASSUME_NONNULL"@)
    ||| contains(source, "FOUNDATION_EXPORT"@)
    ||| contains(source, "#import "@)
}

/// A header of at most 8 KB with an Objective-C marker is Objective-C
/// (Objective-C++ for a `.mm` path), whatever C++ it also holds.
pub proof fn lemma_objc_header_is_objc(path: Seq<char>, source: Seq<char>)
    requires
        byte_len(source) <= 8192,
        objc_marked(source),
    ensures
        detect_spec(path, source) == (if path_extension(path) == Some("mm"@) {
            HeaderLanguage::ObjCPlusPlus
        } else {
            HeaderLanguage::ObjC
        }),
{
    lemma_prefix_count_all(source, 8192);
    assert(header_sample(source) =~= source);
}

/// A header of at most 8 KB with no Objective-C marker and no C++ marker
/// (`class `, `template<`, `template <`, `namespace `, `::`, `#include <`)
/// is plain C.
pub proof fn lemma_plain_header_is_c(path: Seq<char>, source: Seq<char>)
    requires
        byte_len(source) <= 8192,
        !objc_marked(source),
        !contains(source, "class "@),
        !contains(source, "template<"@),
        !contains(source, "template <"@),
        !contains(source, "namespace "@),
        !contains(source, "::"@),
        !contains(source, "#include <"@),
    ensures
        detect_spec(path, source) == HeaderLanguage::C,
{
    lemma_prefix_count_all(source, 8192);
    assert(header_sample(source) =~= source);
    if contains(source, "std::"@) {
        reveal_strlit("std::");
        reveal_strlit("::");
        let i = choose|i: int| occurs_at(source, "std::"@, i);
        let w = source.subrange(i, i + 5);
        assert(w == "std::"@);
        assert(w[3] == ':' && w[4] == ':');
        assert(source.subrange(i + 3, i + 5) =~= seq![w[3], w[4]]);
        assert("::"@ =~= seq![':', ':']);
        assert(occurs_at(source, "::"@, i + 3));
    }
}

/// A header of at most 8 KB with none of the Objective-C markers but a
/// C++ one (`class `, a template, `namespace `, `::`) is detected as C++
/// (Objective-C++ for a `.mm` path), never as C.
pub proof fn lemma_template_header_is_cpp(path: Seq<char>, source: Seq<char>)
    requires
        byte_len(source) <= 8192,
        !objc_marked(source),
        contains(source, "template<"@) || contains(source, "template <"@) || contains(source, "class "@)
            || contains(source, "namespace "@) || contains(source, "::"@),
    ensures
        detect_spec(path, source) == (if path_extension(path) == Some("mm"@) {
            HeaderLanguage::ObjCPlusPlus
        } else {
            HeaderLanguage::Cpp
        }),
        detect_spec(path, source) != HeaderLanguage::C,
{
    lemma_prefix_count_all(source, 8192);
    assert(header_sample(source) =~= source);
}
} // verus!
