//! Character-level text model shared by the whole library.
//!
//! Source text is handled as sequences of `char`.  This module states what
//! the usual string operations mean (`lines`, `trim`, `contains`, …) as
//! spec functions over `Seq<char>` and provides executable versions that
//! are proved to compute them.

use vstd::prelude::*;

verus! {

// ---------------------------------------------------------------------------
// Whitespace and UTF-8 length
// ---------------------------------------------------------------------------

/// The Unicode `White_Space` property (the set `char::is_whitespace` tests).
pub open spec fn is_ws(c: char) -> bool {
    ||| ('\u{9}' <= c && c <= '\u{d}')
    ||| c == ' '
    ||| c == '\u{85}'
    ||| c == '\u{a0}'
    ||| c == '\u{1680}'
    ||| ('\u{2000}' <= c && c <= '\u{200a}')
    ||| c == '\u{2028}'
    ||| c == '\u{2029}'
    ||| c == '\u{202f}'
    ||| c == '\u{205f}'
    ||| c == '\u{3000}'
}

/// Whether `c` is a Unicode whitespace character.
pub fn char_is_whitespace(c: char) -> (b: bool)
    ensures
        b == is_ws(c),
{
    ('\u{9}' <= c && c <= '\u{d}') || c == ' ' || c == '\u{85}' || c == '\u{a0}' || c
        == '\u{1680}' || ('\u{2000}' <= c && c <= '\u{200a}') || c == '\u{2028}' || c
        == '\u{2029}' || c == '\u{202f}' || c == '\u{205f}' || c == '\u{3000}'
}

/// Number of bytes of the UTF-8 encoding of `c`.
pub open spec fn utf8_len(c: char) -> nat {
    if (c as u32) < 0x80 {
        1
    } else if (c as u32) < 0x800 {
        2
    } else if (c as u32) < 0x10000 {
        3
    } else {
        4
    }
}

/// Number of bytes of the UTF-8 encoding of `s`.
pub open spec fn byte_len(s: Seq<char>) -> nat
    decreases s.len(),
{
    if s.len() == 0 {
        0
    } else {
        byte_len(s.drop_last()) + utf8_len(s.last())
    }
}

pub fn char_utf8_len(c: char) -> (n: usize)
    ensures
        n == utf8_len(c),
{
    let v = c as u32;
    if v < 0x80 {
        1
    } else if v < 0x800 {
        2
    } else if v < 0x10000 {
        3
    } else {
        4
    }
}

pub proof fn lemma_byte_len_push(s: Seq<char>, c: char)
    ensures
        byte_len(s.push(c)) == byte_len(s) + utf8_len(c),
{
    assert(s.push(c).drop_last() =~= s);
}

pub proof fn lemma_byte_len_bound(s: Seq<char>)
    ensures
        byte_len(s) <= 4 * s.len(),
    decreases s.len(),
{
    if s.len() > 0 {
        lemma_byte_len_bound(s.drop_last());
    }
}

/// Byte lengths add up over a concatenation.
pub proof fn lemma_byte_len_concat(s: Seq<char>, t: Seq<char>)
    ensures
        byte_len(s + t) == byte_len(s) + byte_len(t),
    decreases t.len(),
{
    if t.len() > 0 {
        lemma_byte_len_concat(s, t.drop_last());
        assert((s + t).drop_last() =~= s + t.drop_last());
    } else {
        assert(s + t =~= s);
    }
}

/// Every character takes at least one byte, and a piece of a text takes
/// no more bytes than the whole.
pub proof fn lemma_byte_len_subrange(s: Seq<char>, lo: int, hi: int)
    requires
        0 <= lo <= hi <= s.len(),
    ensures
        hi - lo <= byte_len(s.subrange(lo, hi)) <= byte_len(s),
{
    lemma_byte_len_lower(s.subrange(lo, hi));
    lemma_byte_len_concat(s.take(lo), s.subrange(lo, hi));
    lemma_byte_len_concat(s.take(lo) + s.subrange(lo, hi), s.skip(hi));
    assert(s.take(lo) + s.subrange(lo, hi) + s.skip(hi) =~= s);
}

pub proof fn lemma_byte_len_lower(s: Seq<char>)
    ensures
        s.len() <= byte_len(s),
    decreases s.len(),
{
    if s.len() > 0 {
        lemma_byte_len_lower(s.drop_last());
    }
}

/// UTF-8 byte length of `v[lo..hi]` (a `u128` cannot overflow here).
pub fn byte_len_of(v: &Vec<char>, lo: usize, hi: usize) -> (n: u128)
    requires
        lo <= hi <= v.len(),
    ensures
        n == byte_len(v@.subrange(lo as int, hi as int)),
{
    let mut n: u128 = 0;
    let mut i = lo;
    while i < hi
        invariant
            lo <= i <= hi <= v.len(),
            n == byte_len(v@.subrange(lo as int, i as int)),
            n <= 4 * (i - lo),
        decreases hi - i,
    {
        proof {
            lemma_byte_len_push(v@.subrange(lo as int, i as int), v@[i as int]);
            assert(v@.subrange(lo as int, i as int).push(v@[i as int]) =~= v@.subrange(
                lo as int,
                i + 1,
            ));
            lemma_byte_len_bound(v@.subrange(lo as int, i + 1));
        }
        n = n + char_utf8_len(v[i]) as u128;
        i = i + 1;
    }
    n
}

/// The character views of a list of strings.
pub open spec fn views(v: Seq<String>) -> Seq<Seq<char>> {
    v.map_values(|p: String| p@)
}

/// Appends a string to a list of strings.
pub fn push_string(v: &mut Vec<String>, s: String)
    ensures
        views(final(v)@) == views(old(v)@).push(s@),
{
    let ghost before = v@;
    v.push(s);
    assert(views(v@) =~= views(before).push(s@));
}

/// Appends a copy of every string of `w` to `v`.
pub fn extend_strings(v: &mut Vec<String>, w: &Vec<String>)
    ensures
        views(final(v)@) == views(old(v)@) + views(w@),
{
    let ghost start = views(v@);
    let mut i: usize = 0;
    while i < w.len()
        invariant
            i <= w.len(),
            views(v@) == start + views(w@).take(i as int),
        decreases w.len() - i,
    {
        push_string(v, w[i].clone());
        assert(views(w@).take(i + 1) =~= views(w@).take(i as int).push(w@[i as int]@));
        i = i + 1;
    }
    assert(views(w@).take(i as int) =~= views(w@));
}

// ---------------------------------------------------------------------------
// Building strings
// ---------------------------------------------------------------------------

/// `String::push`.
#[verifier::external_body]
pub(crate) fn push_char(s: &mut String, c: char)
    ensures
        final(s)@ == old(s)@.push(c),
{
    s.push(c);
}

/// Copies the characters of `s` into a vector.
pub fn chars_of(s: &str) -> (v: Vec<char>)
    ensures
        v@ == s@,
{
    let mut v: Vec<char> = Vec::new();
    for c in it: s.chars()
        invariant
            v@ == it.seq().take(it.index() as int),
            it.seq() == s@,
    {
        v.push(c);
    }
    v
}

/// The string made of `v[lo..hi]`.
pub fn string_of(v: &Vec<char>, lo: usize, hi: usize) -> (s: String)
    requires
        lo <= hi <= v.len(),
    ensures
        s@ == v@.subrange(lo as int, hi as int),
{
    let mut s = String::new();
    let mut i = lo;
    while i < hi
        invariant
            lo <= i <= hi <= v.len(),
            s@ == v@.subrange(lo as int, i as int),
        decreases hi - i,
    {
        push_char(&mut s, v[i]);
        assert(v@.subrange(lo as int, i as int).push(v@[i as int]) =~= v@.subrange(
            lo as int,
            i + 1,
        ));
        i = i + 1;
    }
    s
}

/// Appends `t` to `s`.
pub fn append_str(s: &mut String, t: &str)
    ensures
        final(s)@ == old(s)@ + t@,
{
    s.append(t);
}

/// Appends `t` to `s`.
pub fn append_string(s: &mut String, t: &String)
    ensures
        final(s)@ == old(s)@ + t@,
{
    s.append(t.as_str());
}

/// Copies a string slice into an owned string.
pub fn to_owned_string(t: &str) -> (s: String)
    ensures
        s@ == t@,
{
    t.to_owned()
}

// ---------------------------------------------------------------------------
// Prefix, suffix, containment
// ---------------------------------------------------------------------------

pub open spec fn starts_with(s: Seq<char>, p: Seq<char>) -> bool {
    p.len() <= s.len() && s.take(p.len() as int) == p
}

pub open spec fn ends_with(s: Seq<char>, p: Seq<char>) -> bool {
    p.len() <= s.len() && s.skip(s.len() - p.len()) == p
}

/// Where `p` first occurs in `s` (when it occurs).
pub open spec fn first_occurrence(s: Seq<char>, p: Seq<char>) -> int {
    choose|i: int| occurs_at(s, p, i) && forall|j: int| 0 <= j < i ==> !occurs_at(s, p, j)
}

/// `p` occurs in `s` at position `i`.
pub open spec fn occurs_at(s: Seq<char>, p: Seq<char>, i: int) -> bool {
    0 <= i && i + p.len() <= s.len() && s.subrange(i, i + p.len()) == p
}

pub open spec fn contains(s: Seq<char>, p: Seq<char>) -> bool {
    exists|i: int| occurs_at(s, p, i)
}

/// Whether `p` occurs in `v` at position `i`.
pub fn occurs_at_exec(v: &Vec<char>, p: &Vec<char>, i: usize) -> (b: bool)
    ensures
        b == occurs_at(v@, p@, i as int),
{
    if i > v.len() || p.len() > v.len() - i {
        return false;
    }
    let mut k: usize = 0;
    while k < p.len()
        invariant
            i + p.len() <= v.len(),
            k <= p.len(),
            forall|j: int| 0 <= j < k ==> v@[i + j] == p@[j],
        decreases p.len() - k,
    {
        if v[i + k] != p[k] {
            assert(v@.subrange(i as int, i + p.len())[k as int] != p@[k as int]);
            return false;
        }
        k = k + 1;
    }
    assert(v@.subrange(i as int, i + p.len()) =~= p@);
    true
}

/// Whether `v[lo..hi]` starts with `p`.
pub fn range_starts_with(v: &Vec<char>, lo: usize, hi: usize, p: &Vec<char>) -> (b: bool)
    requires
        lo <= hi <= v.len(),
    ensures
        b == starts_with(v@.subrange(lo as int, hi as int), p@),
{
    if p.len() > hi - lo {
        return false;
    }
    let b = occurs_at_exec(v, p, lo);
    assert(v@.subrange(lo as int, hi as int).take(p.len() as int) =~= v@.subrange(
        lo as int,
        lo + p.len(),
    ));
    b
}

/// Whether `v[lo..hi]` ends with `p`.
pub fn range_ends_with(v: &Vec<char>, lo: usize, hi: usize, p: &Vec<char>) -> (b: bool)
    requires
        lo <= hi <= v.len(),
    ensures
        b == ends_with(v@.subrange(lo as int, hi as int), p@),
{
    if p.len() > hi - lo {
        return false;
    }
    let b = occurs_at_exec(v, p, hi - p.len());
    assert(v@.subrange(lo as int, hi as int).skip((hi - lo) - p.len()) =~= v@.subrange(
        hi - p.len(),
        hi as int,
    ));
    b
}

/// Index of the first occurrence of `p` in `v[lo..hi]`, relative to `lo`.
pub fn range_find(v: &Vec<char>, lo: usize, hi: usize, p: &Vec<char>) -> (r: Option<usize>)
    requires
        lo <= hi <= v.len(),
    ensures
        match r {
            Some(i) => occurs_at(v@.subrange(lo as int, hi as int), p@, i as int) && forall|
                j: int,
            |
                0 <= j < i ==> !occurs_at(v@.subrange(lo as int, hi as int), p@, j),
            None => !contains(v@.subrange(lo as int, hi as int), p@),
        },
{
    let ghost s = v@.subrange(lo as int, hi as int);
    if p.len() > hi - lo {
        return None;
    }
    let last = (hi - lo) - p.len();
    let mut i: usize = 0;
    loop
        invariant
            lo <= hi <= v.len(),
            p.len() <= hi - lo,
            last == (hi - lo) - p.len(),
            i <= last,
            s == v@.subrange(lo as int, hi as int),
            forall|j: int| 0 <= j < i ==> !occurs_at(s, p@, j),
        ensures
            forall|j: int| 0 <= j <= last ==> !occurs_at(s, p@, j),
        decreases last - i,
    {
        let b = occurs_at_exec(v, p, lo + i);
        assert(occurs_at(v@, p@, lo + i) == occurs_at(s, p@, i as int)) by {
            if i + p.len() <= s.len() {
                assert(v@.subrange(lo + i, lo + i + p.len()) =~= s.subrange(
                    i as int,
                    i + p.len(),
                ));
            }
        }
        if b {
            return Some(i);
        }
        if i == last {
            break;
        }
        i = i + 1;
    }
    assert forall|j: int| !occurs_at(s, p@, j) by {
        if occurs_at(s, p@, j) {
            assert(j <= last);
        }
    }
    None
}

/// Whether `v[lo..hi]` contains `p`.
pub fn range_contains(v: &Vec<char>, lo: usize, hi: usize, p: &Vec<char>) -> (b: bool)
    requires
        lo <= hi <= v.len(),
    ensures
        b == contains(v@.subrange(lo as int, hi as int), p@),
{
    match range_find(v, lo, hi, p) {
        Some(_) => true,
        None => false,
    }
}

/// A character that can be part of an identifier.
pub open spec fn is_ident_char(c: char) -> bool {
    ('a' <= c && c <= 'z') || ('A' <= c && c <= 'Z') || ('0' <= c && c <= '9') || c == '_'
}

fn ident_char(c: char) -> (b: bool)
    ensures
        b == is_ident_char(c),
{
    ('a' <= c && c <= 'z') || ('A' <= c && c <= 'Z') || ('0' <= c && c <= '9') || c == '_'
}

/// `p` occurs at `i` in `s` as a whole word: no identifier character
/// right before or right after it.
pub open spec fn word_at(s: Seq<char>, p: Seq<char>, i: int) -> bool {
    &&& occurs_at(s, p, i)
    &&& (i == 0 || !is_ident_char(s[i - 1]))
    &&& (i + p.len() == s.len() || !is_ident_char(s[i + p.len()]))
}

/// `s` contains `p` as a whole word.
pub open spec fn contains_word(s: Seq<char>, p: Seq<char>) -> bool {
    exists|i: int| word_at(s, p, i)
}

/// Whether `v[lo..hi]` contains `p` as a whole word.
pub fn range_contains_word(v: &Vec<char>, lo: usize, hi: usize, p: &Vec<char>) -> (b: bool)
    requires
        lo <= hi <= v.len(),
    ensures
        b == contains_word(v@.subrange(lo as int, hi as int), p@),
{
    let ghost sub = v@.subrange(lo as int, hi as int);
    let mut i = lo;
    while i <= hi
        invariant
            lo <= i <= hi + 1,
            hi <= v.len(),
            sub == v@.subrange(lo as int, hi as int),
            forall|j: int| 0 <= j < i - lo ==> !word_at(sub, p@, j),
        decreases hi + 1 - i,
    {
        if p.len() <= hi - i {
            let at = occurs_at_exec(v, p, i);
            proof {
                assert(v@.subrange(i as int, i + p.len()) =~= sub.subrange(i - lo, i - lo + p.len()));
            }
            if at {
                let before_ok = i == lo || !ident_char(v[i - 1]);
                let after_ok = i + p.len() == hi || !ident_char(v[i + p.len()]);
                if before_ok && after_ok {
                    assert(word_at(sub, p@, i - lo));
                    return true;
                }
            }
        }
        assert(!word_at(sub, p@, i - lo));
        if i == hi {
            assert forall|j: int| word_at(sub, p@, j) implies false by {
                assert(0 <= j && j + p@.len() <= sub.len());
            }
            return false;
        }
        i = i + 1;
    }
    assert forall|j: int| word_at(sub, p@, j) implies false by {
        assert(0 <= j && j + p@.len() <= sub.len());
    }
    false
}

/// Whether `s` contains `p`.
pub fn str_contains(s: &str, p: &str) -> (b: bool)
    ensures
        b == contains(s@, p@),
{
    let v = chars_of(s);
    let w = chars_of(p);
    let b = range_contains(&v, 0, v.len(), &w);
    assert(v@.subrange(0, v.len() as int) =~= v@);
    b
}

/// Whether `s` starts with `p`.
pub fn str_starts_with(s: &str, p: &str) -> (b: bool)
    ensures
        b == starts_with(s@, p@),
{
    let v = chars_of(s);
    let w = chars_of(p);
    assert(v@.subrange(0, v.len() as int) =~= v@);
    range_starts_with(&v, 0, v.len(), &w)
}

/// Whether `s` ends with `p`.
pub fn str_ends_with(s: &str, p: &str) -> (b: bool)
    ensures
        b == ends_with(s@, p@),
{
    let v = chars_of(s);
    let w = chars_of(p);
    assert(v@.subrange(0, v.len() as int) =~= v@);
    range_ends_with(&v, 0, v.len(), &w)
}

/// Whether two strings hold the same characters.
pub fn str_eq(s: &str, t: &str) -> (b: bool)
    ensures
        b == (s@ == t@),
{
    let v = chars_of(s);
    let w = chars_of(t);
    if v.len() != w.len() {
        return false;
    }
    let b = occurs_at_exec(&v, &w, 0);
    assert(v@.subrange(0, w.len() as int) =~= v@);
    b
}

/// Whether `c` occurs in `s`.
pub open spec fn has_char(s: Seq<char>, c: char) -> bool {
    exists|i: int| 0 <= i < s.len() && s[i] == c
}

/// Index of the first `c` in `v[lo..hi]`, relative to `lo`.
pub fn range_find_char(v: &Vec<char>, lo: usize, hi: usize, c: char) -> (r: Option<usize>)
    requires
        lo <= hi <= v.len(),
    ensures
        match r {
            Some(i) => lo + i < hi && v@[lo + i] == c && forall|j: int|
                lo <= j < lo + i ==> v@[j] != c,
            None => forall|j: int| lo <= j < hi ==> v@[j] != c,
        },
{
    let mut i = lo;
    while i < hi
        invariant
            lo <= i <= hi <= v.len(),
            forall|j: int| lo <= j < i ==> v@[j] != c,
        decreases hi - i,
    {
        if v[i] == c {
            return Some(i - lo);
        }
        i = i + 1;
    }
    None
}

// ---------------------------------------------------------------------------
// Trimming
// ---------------------------------------------------------------------------

pub open spec fn trim_start(s: Seq<char>) -> Seq<char>
    decreases s.len(),
{
    if s.len() > 0 && is_ws(s[0]) {
        trim_start(s.drop_first())
    } else {
        s
    }
}

pub open spec fn trim_end(s: Seq<char>) -> Seq<char>
    decreases s.len(),
{
    if s.len() > 0 && is_ws(s.last()) {
        trim_end(s.drop_last())
    } else {
        s
    }
}

/// `str::trim`: whitespace removed from both ends.
pub open spec fn trim(s: Seq<char>) -> Seq<char> {
    trim_end(trim_start(s))
}

proof fn lemma_trim_start_skip(s: Seq<char>, i: int)
    requires
        0 <= i <= s.len(),
        forall|j: int| 0 <= j < i ==> is_ws(s[j]),
    ensures
        trim_start(s) == trim_start(s.skip(i)),
    decreases i,
{
    if i > 0 {
        assert(s.drop_first().skip(i - 1) =~= s.skip(i));
        lemma_trim_start_skip(s.drop_first(), i - 1);
    } else {
        assert(s.skip(0) =~= s);
    }
}

proof fn lemma_trim_end_take(s: Seq<char>, i: int)
    requires
        0 <= i <= s.len(),
        forall|j: int| i <= j < s.len() ==> is_ws(s[j]),
    ensures
        trim_end(s) == trim_end(s.take(i)),
    decreases s.len() - i,
{
    if i < s.len() {
        assert(s.drop_last().take(i) =~= s.take(i));
        lemma_trim_end_take(s.drop_last(), i);
    } else {
        assert(s.take(i) =~= s);
    }
}

/// A text `p` without whitespace that occurs in `s` still occurs in
/// `trim(s)`: trimming takes only whitespace.
pub proof fn lemma_contains_trim(s: Seq<char>, p: Seq<char>)
    requires
        contains(s, p),
        p.len() > 0,
        forall|j: int| 0 <= j < p.len() ==> !is_ws(#[trigger] p[j]),
    ensures
        contains(trim(s), p),
{
    let i = choose|i: int| occurs_at(s, p, i);
    lemma_contains_trim_start(s, p, i);
    let t = trim_start(s);
    let k = choose|k: int| occurs_at(t, p, k);
    lemma_contains_trim_end(t, p, k);
}

proof fn lemma_contains_trim_start(s: Seq<char>, p: Seq<char>, i: int)
    requires
        occurs_at(s, p, i),
        p.len() > 0,
        forall|j: int| 0 <= j < p.len() ==> !is_ws(#[trigger] p[j]),
    ensures
        contains(trim_start(s), p),
    decreases s.len(),
{
    if s.len() > 0 && is_ws(s[0]) {
        assert(s.subrange(i, i + p.len())[0] == p[0]);
        assert(i > 0);
        assert(s.drop_first().subrange(i - 1, i - 1 + p.len()) =~= s.subrange(i, i + p.len()));
        lemma_contains_trim_start(s.drop_first(), p, i - 1);
    } else {
        assert(occurs_at(trim_start(s), p, i));
    }
}

proof fn lemma_contains_trim_end(s: Seq<char>, p: Seq<char>, i: int)
    requires
        occurs_at(s, p, i),
        p.len() > 0,
        forall|j: int| 0 <= j < p.len() ==> !is_ws(#[trigger] p[j]),
    ensures
        contains(trim_end(s), p),
    decreases s.len(),
{
    if s.len() > 0 && is_ws(s.last()) {
        assert(s.subrange(i, i + p.len())[p.len() - 1] == p[p.len() - 1]);
        assert(i + p.len() < s.len());
        assert(s.drop_last().subrange(i, i + p.len()) =~= s.subrange(i, i + p.len()));
        lemma_contains_trim_end(s.drop_last(), p, i);
    } else {
        assert(occurs_at(trim_end(s), p, i));
    }
}

/// Bounds of `trim(v[lo..hi])` inside `v`.
pub fn trim_range(v: &Vec<char>, lo: usize, hi: usize) -> (r: (usize, usize))
    requires
        lo <= hi <= v.len(),
    ensures
        lo <= r.0 <= r.1 <= hi,
        v@.subrange(r.0 as int, r.1 as int) == trim(v@.subrange(lo as int, hi as int)),
{
    let ghost s = v@.subrange(lo as int, hi as int);
    let mut a = lo;
    while a < hi && char_is_whitespace(v[a])
        invariant
            lo <= a <= hi <= v.len(),
            s == v@.subrange(lo as int, hi as int),
            forall|j: int| lo <= j < a ==> is_ws(v@[j]),
        decreases hi - a,
    {
        a = a + 1;
    }
    proof {
        lemma_trim_start_skip(s, a - lo);
        assert(s.skip(a - lo) =~= v@.subrange(a as int, hi as int));
        if a < hi {
            assert(!is_ws(v@.subrange(a as int, hi as int)[0]));
        }
    }
    let ghost t = v@.subrange(a as int, hi as int);
    assert(trim_start(t) == t);
    let mut b = hi;
    while b > a && char_is_whitespace(v[b - 1])
        invariant
            lo <= a <= b <= hi <= v.len(),
            t == v@.subrange(a as int, hi as int),
            forall|j: int| b <= j < hi ==> is_ws(v@[j]),
        decreases b - a,
    {
        b = b - 1;
    }
    proof {
        lemma_trim_end_take(t, b - a);
        assert(t.take(b - a) =~= v@.subrange(a as int, b as int));
    }
    (a, b)
}

/// `str::trim`.
pub fn trim_string(s: &str) -> (r: String)
    ensures
        r@ == trim(s@),
{
    let v = chars_of(s);
    let (a, b) = trim_range(&v, 0, v.len());
    assert(v@.subrange(0, v.len() as int) =~= v@);
    string_of(&v, a, b)
}

/// `[start, end)` spans of the trimmed lines of `v`: span `k` holds
/// `trim(lines(v)[k])`.
pub fn trimmed_line_spans(v: &Vec<char>) -> (r: Vec<(usize, usize)>)
    ensures
        r.len() == lines(v@).len(),
        forall|k: int| #![trigger r@[k]] 0 <= k < r.len() ==> r@[k].0 <= r@[k].1 <= v.len(),
        forall|k: int|
            #![trigger r@[k]]
            0 <= k < r.len() ==> v@.subrange(r@[k].0 as int, r@[k].1 as int) == trim(lines(v@)[k]),
{
    let spans = line_spans(v);
    let mut r: Vec<(usize, usize)> = Vec::new();
    let mut k: usize = 0;
    while k < spans.len()
        invariant
            k <= spans.len(),
            r.len() == k,
            spans.len() == lines(v@).len(),
            forall|j: int| #![trigger spans@[j]] 0 <= j < spans.len() ==> spans@[j].0 <= spans@[j].1 <= v.len(),
            forall|j: int|
                #![trigger spans@[j]]
                0 <= j < spans.len() ==> v@.subrange(spans@[j].0 as int, spans@[j].1 as int) == lines(v@)[j],
            forall|j: int| #![trigger r@[j]] 0 <= j < r.len() ==> r@[j].0 <= r@[j].1 <= v.len(),
            forall|j: int|
                #![trigger r@[j]]
                0 <= j < r.len() ==> v@.subrange(r@[j].0 as int, r@[j].1 as int) == trim(lines(v@)[j]),
        decreases spans.len() - k,
    {
        let (a, b) = spans[k];
        assert(v@.subrange(a as int, b as int) == lines(v@)[k as int]);
        let t = trim_range(v, a, b);
        r.push(t);
        k = k + 1;
    }
    r
}

/// Whether `v[lo..hi]` is exactly `p`.
pub fn range_equals(v: &Vec<char>, lo: usize, hi: usize, p: &Vec<char>) -> (b: bool)
    requires
        lo <= hi <= v.len(),
    ensures
        b == (v@.subrange(lo as int, hi as int) == p@),
{
    if hi - lo != p.len() {
        return false;
    }
    let b = range_starts_with(v, lo, hi, p);
    assert(v@.subrange(lo as int, hi as int).take(p.len() as int) =~= v@.subrange(lo as int, hi as int));
    b
}

// ---------------------------------------------------------------------------
// Lines
// ---------------------------------------------------------------------------

/// Index of the first `'\n'` in `s`, or `s.len()` when there is none.
pub open spec fn first_nl(s: Seq<char>) -> nat
    decreases s.len(),
{
    if s.len() == 0 {
        0
    } else if s[0] == '\n' {
        0
    } else {
        1 + first_nl(s.drop_first())
    }
}

/// A line with a single trailing `'\r'` removed.
pub open spec fn strip_cr(l: Seq<char>) -> Seq<char> {
    if l.len() > 0 && l.last() == '\r' {
        l.drop_last()
    } else {
        l
    }
}

/// `str::lines`: the text split at `"\n"` (a `"\r"` right before the
/// `"\n"` belongs to the line ending); a final line ending adds no line.
pub open spec fn lines(s: Seq<char>) -> Seq<Seq<char>>
    decreases s.len(),
{
    if s.len() == 0 {
        seq![]
    } else {
        let k = first_nl(s);
        if k >= s.len() {
            seq![s]
        } else {
            seq![strip_cr(s.take(k as int))] + lines(s.skip(k + 1 as int))
        }
    }
}

pub proof fn lemma_first_nl(s: Seq<char>, i: int)
    requires
        0 <= i <= s.len(),
        forall|j: int| 0 <= j < i ==> s[j] != '\n',
        i == s.len() || s[i] == '\n',
    ensures
        first_nl(s) == i,
    decreases i,
{
    if i > 0 {
        lemma_first_nl(s.drop_first(), i - 1);
    }
}

pub proof fn lemma_first_nl_bound(s: Seq<char>)
    ensures
        first_nl(s) <= s.len(),
    decreases s.len(),
{
    if s.len() > 0 && s[0] != '\n' {
        lemma_first_nl_bound(s.drop_first());
    }
}

/// There are at most as many lines as characters.
pub proof fn lemma_lines_len(s: Seq<char>)
    ensures
        lines(s).len() <= s.len(),
    decreases s.len(),
{
    if s.len() > 0 {
        lemma_first_nl_bound(s);
        let k = first_nl(s);
        if k < s.len() {
            lemma_lines_len(s.skip(k + 1 as int));
        }
    }
}

/// `[start, end)` spans of the lines of `v`, as `lines` defines them.
pub fn line_spans(v: &Vec<char>) -> (r: Vec<(usize, usize)>)
    ensures
        r.len() == lines(v@).len(),
        forall|k: int| #![trigger r@[k]] 0 <= k < r.len() ==> r@[k].0 <= r@[k].1 <= v.len(),
        forall|k: int|
            #![trigger r@[k]]
            0 <= k < r.len() ==> v@.subrange(r@[k].0 as int, r@[k].1 as int) == lines(v@)[k],
{
    let mut r: Vec<(usize, usize)> = Vec::new();
    let mut start: usize = 0;
    let mut i: usize = 0;
    let ghost s = v@;
    let ghost done: Seq<Seq<char>> = seq![];
    assert(s.skip(0) =~= s);
    while i < v.len()
        invariant
            start <= i <= v.len(),
            s == v@,
            r.len() == done.len(),
            forall|k: int| #![trigger r@[k]] 0 <= k < r.len() ==> r@[k].0 <= r@[k].1 <= v.len(),
            forall|k: int|
                #![trigger r@[k]]
                0 <= k < r.len() ==> v@.subrange(r@[k].0 as int, r@[k].1 as int) == done[k],
            done + lines(s.skip(start as int)) == lines(s),
            forall|j: int| start <= j < i ==> s[j] != '\n',
        decreases v.len() - i,
    {
        if v[i] == '\n' {
            let ghost rest = s.skip(start as int);
            proof {
                lemma_first_nl(rest, i - start);
                assert(rest.take(i - start) =~= s.subrange(start as int, i as int));
                assert(rest.skip(i - start + 1) =~= s.skip(i + 1));
            }
            let mut e = i;
            if e > start && v[e - 1] == '\r' {
                e = e - 1;
            }
            assert(v@.subrange(start as int, e as int) == strip_cr(s.subrange(
                start as int,
                i as int,
            ))) by {
                if i > start && v@[i - 1] == '\r' {
                    assert(s.subrange(start as int, i as int).drop_last() =~= v@.subrange(
                        start as int,
                        e as int,
                    ));
                } else {
                    assert(e == i);
                }
            }
            r.push((start, e));
            proof {
                done = done.push(strip_cr(s.subrange(start as int, i as int)));
                assert(done + lines(s.skip(i + 1)) =~= lines(s)) by {
                    assert(lines(rest) == seq![strip_cr(rest.take(i - start))] + lines(
                        rest.skip(i - start + 1),
                    ));
                }
            }
            start = i + 1;
        }
        i = i + 1;
    }
    proof {
        let rest = s.skip(start as int);
        if start < v.len() {
            lemma_first_nl(rest, rest.len() as int);
            assert(rest =~= v@.subrange(start as int, v.len() as int));
        } else {
            assert(rest.len() == 0);
            assert(done =~= lines(s));
        }
    }
    if start < v.len() {
        r.push((start, v.len()));
        proof {
            done = done.push(s.skip(start as int));
            assert(done =~= lines(s));
        }
    }
    r
}

/// `str::lines`, collected into owned strings.
pub fn lines_of(s: &str) -> (r: Vec<String>)
    ensures
        r.len() == lines(s@).len(),
        forall|k: int| 0 <= k < r.len() ==> #[trigger] r@[k]@ == lines(s@)[k],
{
    let v = chars_of(s);
    let spans = line_spans(&v);
    let mut r: Vec<String> = Vec::new();
    let mut k: usize = 0;
    while k < spans.len()
        invariant
            v@ == s@,
            spans.len() == lines(v@).len(),
            forall|j: int|
                #![trigger spans@[j]]
                0 <= j < spans.len() ==> spans@[j].0 <= spans@[j].1 <= v.len(),
            forall|j: int|
                #![trigger spans@[j]]
                0 <= j < spans.len() ==> v@.subrange(spans@[j].0 as int, spans@[j].1 as int)
                    == lines(v@)[j],
            k <= spans.len(),
            r.len() == k,
            forall|j: int| 0 <= j < k ==> #[trigger] r@[j]@ == lines(s@)[j],
        decreases spans.len() - k,
    {
        let (a, b) = spans[k];
        let line = string_of(&v, a, b);
        r.push(line);
        k = k + 1;
    }
    r
}


// ---------------------------------------------------------------------------
// Splitting at a separator
// ---------------------------------------------------------------------------

/// Index of the first `c` in `s`, or `s.len()` when there is none.
pub open spec fn first_of(s: Seq<char>, c: char) -> nat
    decreases s.len(),
{
    if s.len() == 0 {
        0
    } else if s[0] == c {
        0
    } else {
        1 + first_of(s.drop_first(), c)
    }
}

pub proof fn lemma_first_of(s: Seq<char>, c: char, i: int)
    requires
        0 <= i <= s.len(),
        forall|j: int| 0 <= j < i ==> s[j] != c,
        i == s.len() || s[i] == c,
    ensures
        first_of(s, c) == i,
    decreases i,
{
    if i > 0 {
        lemma_first_of(s.drop_first(), c, i - 1);
    }
}

/// The non-empty pieces of `s` between occurrences of `c`
/// (`s.split(c).filter(|p| !p.is_empty())`).
pub open spec fn pieces(s: Seq<char>, c: char) -> Seq<Seq<char>>
    decreases s.len(),
{
    if s.len() == 0 {
        seq![]
    } else {
        let k = first_of(s, c);
        let head: Seq<Seq<char>> = if k > 0 {
            seq![s.take(k as int)]
        } else {
            seq![]
        };
        if k >= s.len() {
            head
        } else {
            head + pieces(s.skip(k + 1 as int), c)
        }
    }
}

/// `[start, end)` spans in `v` of `pieces(v@, c)`.
pub fn piece_spans(v: &Vec<char>, c: char) -> (r: Vec<(usize, usize)>)
    ensures
        r.len() == pieces(v@, c).len(),
        forall|k: int| #![trigger r@[k]] 0 <= k < r.len() ==> r@[k].0 < r@[k].1 <= v.len(),
        forall|k: int|
            #![trigger r@[k]]
            0 <= k < r.len() ==> v@.subrange(r@[k].0 as int, r@[k].1 as int) == pieces(v@, c)[k],
{
    let mut r: Vec<(usize, usize)> = Vec::new();
    let mut start: usize = 0;
    let mut i: usize = 0;
    let ghost s = v@;
    let ghost done: Seq<Seq<char>> = seq![];
    assert(s.skip(0) =~= s);
    while i < v.len()
        invariant
            start <= i <= v.len(),
            s == v@,
            r.len() == done.len(),
            forall|k: int| #![trigger r@[k]] 0 <= k < r.len() ==> r@[k].0 < r@[k].1 <= v.len(),
            forall|k: int|
                #![trigger r@[k]]
                0 <= k < r.len() ==> v@.subrange(r@[k].0 as int, r@[k].1 as int) == done[k],
            done + pieces(s.skip(start as int), c) == pieces(s, c),
            forall|j: int| start <= j < i ==> s[j] != c,
        decreases v.len() - i,
    {
        if v[i] == c {
            let ghost rest = s.skip(start as int);
            proof {
                lemma_first_of(rest, c, i - start);
                assert(rest.take(i - start) =~= s.subrange(start as int, i as int));
                assert(rest.skip(i - start + 1) =~= s.skip(i + 1));
            }
            if i > start {
                r.push((start, i));
                proof {
                    done = done.push(s.subrange(start as int, i as int));
                    assert(done + pieces(s.skip(i + 1), c) =~= pieces(s, c));
                }
            } else {
                assert(done + pieces(s.skip(i + 1), c) =~= pieces(s, c));
            }
            start = i + 1;
        }
        i = i + 1;
    }
    proof {
        let rest = s.skip(start as int);
        if start < v.len() {
            lemma_first_of(rest, c, rest.len() as int);
            assert(rest =~= v@.subrange(start as int, v.len() as int));
            assert(rest.take(rest.len() as int) =~= rest);
        } else {
            assert(rest.len() == 0);
            assert(done =~= pieces(s, c));
        }
    }
    if start < v.len() {
        r.push((start, v.len()));
        proof {
            done = done.push(s.skip(start as int));
            assert(done =~= pieces(s, c));
        }
    }
    r
}

/// Index of the first whitespace character of `s`, or `s.len()`.
pub open spec fn first_ws(s: Seq<char>) -> nat
    decreases s.len(),
{
    if s.len() == 0 {
        0
    } else if is_ws(s[0]) {
        0
    } else {
        1 + first_ws(s.drop_first())
    }
}

pub proof fn lemma_first_ws(s: Seq<char>, i: int)
    requires
        0 <= i <= s.len(),
        forall|j: int| 0 <= j < i ==> !is_ws(s[j]),
        i == s.len() || is_ws(s[i]),
    ensures
        first_ws(s) == i,
    decreases i,
{
    if i > 0 {
        lemma_first_ws(s.drop_first(), i - 1);
    }
}

/// `str::split_whitespace`: the maximal runs of non-whitespace characters.
pub open spec fn words(s: Seq<char>) -> Seq<Seq<char>>
    decreases s.len(),
{
    if s.len() == 0 {
        seq![]
    } else {
        let k = first_ws(s);
        let head: Seq<Seq<char>> = if k > 0 {
            seq![s.take(k as int)]
        } else {
            seq![]
        };
        if k >= s.len() {
            head
        } else {
            head + words(s.skip(k + 1 as int))
        }
    }
}

/// `[start, end)` spans in `v[lo..hi]` (absolute indices) of
/// `words(v[lo..hi])`.
pub fn word_spans(v: &Vec<char>, lo: usize, hi: usize) -> (r: Vec<(usize, usize)>)
    requires
        lo <= hi <= v.len(),
    ensures
        r.len() == words(v@.subrange(lo as int, hi as int)).len(),
        forall|k: int| #![trigger r@[k]] 0 <= k < r.len() ==> lo <= r@[k].0 < r@[k].1 <= hi,
        forall|k: int|
            #![trigger r@[k]]
            0 <= k < r.len() ==> v@.subrange(r@[k].0 as int, r@[k].1 as int) == words(
                v@.subrange(lo as int, hi as int),
            )[k],
{
    let mut r: Vec<(usize, usize)> = Vec::new();
    let mut start: usize = lo;
    let mut i: usize = lo;
    let ghost s = v@.subrange(lo as int, hi as int);
    let ghost done: Seq<Seq<char>> = seq![];
    assert(s.skip(0) =~= s);
    while i < hi
        invariant
            lo <= start <= i <= hi <= v.len(),
            s == v@.subrange(lo as int, hi as int),
            r.len() == done.len(),
            forall|k: int| #![trigger r@[k]] 0 <= k < r.len() ==> lo <= r@[k].0 < r@[k].1 <= hi,
            forall|k: int|
                #![trigger r@[k]]
                0 <= k < r.len() ==> v@.subrange(r@[k].0 as int, r@[k].1 as int) == done[k],
            done + words(s.skip(start - lo)) == words(s),
            forall|j: int| start <= j < i ==> !is_ws(v@[j]),
        decreases hi - i,
    {
        if char_is_whitespace(v[i]) {
            let ghost rest = s.skip(start - lo);
            proof {
                lemma_first_ws(rest, i - start);
                assert(rest.take(i - start) =~= v@.subrange(start as int, i as int));
                assert(rest.skip(i - start + 1) =~= s.skip(i + 1 - lo));
            }
            if i > start {
                r.push((start, i));
                proof {
                    done = done.push(v@.subrange(start as int, i as int));
                    assert(done + words(s.skip(i + 1 - lo)) =~= words(s));
                }
            } else {
                assert(done + words(s.skip(i + 1 - lo)) =~= words(s));
            }
            start = i + 1;
        }
        i = i + 1;
    }
    proof {
        let rest = s.skip(start - lo);
        if start < hi {
            lemma_first_ws(rest, rest.len() as int);
            assert(rest =~= v@.subrange(start as int, hi as int));
            assert(rest.take(rest.len() as int) =~= rest);
        } else {
            assert(rest.len() == 0);
            assert(done =~= words(s));
        }
    }
    if start < hi {
        r.push((start, hi));
        proof {
            done = done.push(s.skip(start - lo));
            assert(done =~= words(s));
        }
    }
    r
}

/// `str::split_whitespace`, collected into owned strings.
pub fn split_whitespace(s: &str) -> (r: Vec<String>)
    ensures
        r.len() == words(s@).len(),
        forall|k: int| 0 <= k < r.len() ==> #[trigger] r@[k]@ == words(s@)[k],
{
    let v = chars_of(s);
    let spans = word_spans(&v, 0, v.len());
    assert(v@.subrange(0, v.len() as int) =~= v@);
    let mut r: Vec<String> = Vec::new();
    let mut k: usize = 0;
    while k < spans.len()
        invariant
            v@ == s@,
            spans.len() == words(v@).len(),
            forall|j: int| #![trigger spans@[j]] 0 <= j < spans.len() ==> spans@[j].0 < spans@[j].1 <= v.len(),
            forall|j: int|
                #![trigger spans@[j]]
                0 <= j < spans.len() ==> v@.subrange(spans@[j].0 as int, spans@[j].1 as int)
                    == words(v@)[j],
            k <= spans.len(),
            r.len() == k,
            forall|j: int| 0 <= j < k ==> #[trigger] r@[j]@ == words(s@)[j],
        decreases spans.len() - k,
    {
        let (a, b) = spans[k];
        r.push(string_of(&v, a, b));
        k = k + 1;
    }
    r
}


/// Index of the last `c` in `s`, or `-1` when there is none.
pub open spec fn last_of(s: Seq<char>, c: char) -> int
    decreases s.len(),
{
    if s.len() == 0 {
        -1
    } else if s.last() == c {
        s.len() - 1
    } else {
        last_of(s.drop_last(), c)
    }
}

pub proof fn lemma_last_of(s: Seq<char>, c: char, i: int)
    requires
        -1 <= i < s.len(),
        forall|j: int| i < j < s.len() ==> s[j] != c,
        i == -1 || s[i] == c,
    ensures
        last_of(s, c) == i,
    decreases s.len(),
{
    if s.len() > 0 && s.len() - 1 != i {
        lemma_last_of(s.drop_last(), c, i);
    }
}

/// Index of the last `c` in `v`, if any.
pub fn rfind_char(v: &Vec<char>, c: char) -> (r: Option<usize>)
    ensures
        match r {
            Some(i) => i < v.len() && last_of(v@, c) == i,
            None => last_of(v@, c) == -1,
        },
{
    let mut i = v.len();
    while i > 0
        invariant
            i <= v.len(),
            forall|j: int| i <= j < v.len() ==> v@[j] != c,
        decreases i,
    {
        if v[i - 1] == c {
            proof {
                lemma_last_of(v@, c, i - 1);
            }
            return Some(i - 1);
        }
        i = i - 1;
    }
    proof {
        lemma_last_of(v@, c, -1);
    }
    None
}

/// `str::split` at `c`: every piece between occurrences of `c`, empty
/// ones included.
pub open spec fn split_char(s: Seq<char>, c: char) -> Seq<Seq<char>>
    decreases s.len(),
{
    let k = first_of(s, c);
    if k >= s.len() {
        seq![s]
    } else {
        seq![s.take(k as int)] + split_char(s.skip(k + 1 as int), c)
    }
}

proof fn lemma_first_of_bound(s: Seq<char>, c: char)
    ensures
        first_of(s, c) <= s.len(),
    decreases s.len(),
{
    if s.len() > 0 && s[0] != c {
        lemma_first_of_bound(s.drop_first(), c);
    }
}

/// `[start, end)` spans in `v` of `split_char(v@, c)`.
pub fn split_spans(v: &Vec<char>, c: char) -> (r: Vec<(usize, usize)>)
    ensures
        r.len() == split_char(v@, c).len(),
        forall|k: int| #![trigger r@[k]] 0 <= k < r.len() ==> r@[k].0 <= r@[k].1 <= v.len(),
        forall|k: int|
            #![trigger r@[k]]
            0 <= k < r.len() ==> v@.subrange(r@[k].0 as int, r@[k].1 as int) == split_char(v@, c)[k],
{
    let mut r: Vec<(usize, usize)> = Vec::new();
    let mut start: usize = 0;
    let ghost s = v@;
    let ghost mut done: Seq<Seq<char>> = seq![];
    assert(s.skip(0) =~= s);
    loop
        invariant
            start <= v.len(),
            s == v@,
            r.len() == done.len(),
            forall|k: int| #![trigger r@[k]] 0 <= k < r.len() ==> r@[k].0 <= r@[k].1 <= v.len(),
            forall|k: int|
                #![trigger r@[k]]
                0 <= k < r.len() ==> v@.subrange(r@[k].0 as int, r@[k].1 as int) == done[k],
            done + split_char(s.skip(start as int), c) == split_char(s, c),
        decreases v.len() - start,
    {
        let ghost rest = s.skip(start as int);
        let mut i = start;
        while i < v.len() && v[i] != c
            invariant
                start <= i <= v.len(),
                s == v@,
                rest == s.skip(start as int),
                forall|j: int| start <= j < i ==> s[j] != c,
            decreases v.len() - i,
        {
            i = i + 1;
        }
        proof {
            lemma_first_of(rest, c, i - start);
            assert(rest.take(i - start) =~= v@.subrange(start as int, i as int));
        }
        r.push((start, i));
        proof {
            done = done.push(rest.take(i - start));
        }
        if i >= v.len() {
            assert(split_char(rest, c) == seq![rest]);
            assert(rest.take(i - start) =~= rest);
            assert(done =~= split_char(s, c));
            return r;
        }
        assert(rest.skip(i - start + 1) =~= s.skip(i + 1));
        start = i + 1;
    }
}

/// The pieces `ls` with `sep` between them.
pub open spec fn join_by(ls: Seq<Seq<char>>, sep: Seq<char>) -> Seq<char>
    decreases ls.len(),
{
    if ls.len() == 0 {
        Seq::empty()
    } else if ls.len() == 1 {
        ls[0]
    } else {
        join_by(ls.drop_last(), sep) + sep + ls.last()
    }
}

/// `[String]::join`.
pub fn join_strings(v: &Vec<String>, sep: &str) -> (r: String)
    ensures
        r@ == join_by(views(v@), sep@),
{
    let mut out = String::new();
    let mut k: usize = 0;
    assert(views(v@).take(0) =~= Seq::<Seq<char>>::empty());
    while k < v.len()
        invariant
            k <= v.len(),
            out@ == join_by(views(v@).take(k as int), sep@),
        decreases v.len() - k,
    {
        assert(views(v@).take(k + 1).drop_last() =~= views(v@).take(k as int));
        assert(views(v@).take(k + 1).last() == v@[k as int]@);
        if k > 0 {
            append_str(&mut out, sep);
        }
        append_string(&mut out, &v[k]);
        if k == 0 {
            assert(out@ =~= v@[0]@);
        }
        k = k + 1;
    }
    assert(views(v@).take(v.len() as int) =~= views(v@));
    out
}

} // verus!
