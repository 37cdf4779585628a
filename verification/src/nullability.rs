//! Nullability annotation diagnostics.
//!
//! Scans Objective-C source for method declarations with pointer types that
//! lack explicit nullability annotations (`_Nullable`, `_Nonnull`,
//! `nullable`, `nonnull`) outside an `NS_ASSUME_NONNULL_BEGIN` /
//! `NS_ASSUME_NONNULL_END` region.  The check is text-based.
//!
//! Diagnostics produced:
//! - once per header file without any `NS_ASSUME_NONNULL_BEGIN`;
//! - per pointer (each `*`) of a method declaration line, outside a
//!   nonnull region, that carries no nullability keyword.

use vstd::prelude::*;

use crate::lsp::{rng, Diagnostic, DiagnosticSeverity, Position, Range};
use crate::text::{
    byte_len, char_utf8_len, chars_of, contains, has_char, is_ws, lemma_contains_trim, lemma_byte_len_lower,
    lemma_byte_len_subrange, lemma_lines_len, line_spans, lines, range_contains, range_find_char,
    range_starts_with, starts_with, str_contains, str_eq, to_owned_string, trim, trim_end, trim_range,
    trim_start,
};

verus! {

pub open spec fn region_missing_message() -> Seq<char> {
    "Header is missing NS_ASSUME_NONNULL_BEGIN/END — all pointer types are implicitly unaudited. Consider adding NS_ASSUME_NONNULL_BEGIN/END or annotating each pointer with _Nullable / _Nonnull."@
}

pub open spec fn pointer_message() -> Seq<char> {
    "Pointer type lacks nullability annotation (_Nullable or _Nonnull). Wrap the file with NS_ASSUME_NONNULL_BEGIN/END or annotate explicitly."@
}

/// The nullability keywords that count as an annotation.
pub open spec fn nullability_keywords() -> Seq<Seq<char>> {
    seq![
        "_Nullable"@,
        "_Nonnull"@,
        "_Null_unspecified"@,
        "nullable"@,
        "nonnull"@,
        "__nullable"@,
        "__nonnull"@,
    ]
}

/// The line holds a `*` and none of the nullability keywords.
pub open spec fn unannotated_pointer(line: Seq<char>) -> bool {
    has_char(line, '*') && forall|i: int|
        0 <= i < nullability_keywords().len() ==> !contains(line, #[trigger] nullability_keywords()[i])
}

/// Byte offsets of the `*` characters of `line`, in order: one per
/// pointer parameter or return type written on it.
pub open spec fn star_columns(line: Seq<char>) -> Seq<int>
    decreases line.len(),
{
    if line.len() == 0 {
        seq![]
    } else {
        let r = star_columns(line.drop_last());
        if line.last() == '*' {
            r.push(byte_len(line.drop_last()) as int)
        } else {
            r
        }
    }
}

/// The `(line, column)` findings of line `k`: one per `*` on it.
pub open spec fn line_findings(line: Seq<char>, k: int) -> Seq<(int, int)> {
    star_columns(line).map_values(|c: int| (k, c))
}

/// One line of the scan (`k` is its index): the region markers open and
/// close a nonnull region; outside a region, each pointer of a method
/// declaration line (starting with `-` or `+`) without any nullability
/// keyword is reported.
pub open spec fn scan_step(st: (bool, Seq<(int, int)>), line: Seq<char>, k: int) -> (bool, Seq<
    (int, int),
>) {
    let (in_region, found) = st;
    let t = trim(line);
    if contains(t, "NS_ASSUME_NONNULL_BEGIN"@) {
        (true, found)
    } else if contains(t, "NS_ASSUME_NONNULL_END"@) {
        (false, found)
    } else if in_region {
        (in_region, found)
    } else if !(starts_with(t, "-"@) || starts_with(t, "+"@)) {
        (in_region, found)
    } else if unannotated_pointer(t) {
        (in_region, found + line_findings(line, k))
    } else {
        (in_region, found)
    }
}

/// Scan of the lines: whether the last line left a nonnull region open,
/// and the `(line, column)` of each pointer diagnostic.
pub open spec fn pointer_scan(ls: Seq<Seq<char>>) -> (bool, Seq<(int, int)>)
    decreases ls.len(),
{
    if ls.len() == 0 {
        (false, seq![])
    } else {
        scan_step(pointer_scan(ls.drop_last()), ls.last(), ls.len() - 1)
    }
}

/// Whether the region-missing warning is emitted: a header without any
/// `NS_ASSUME_NONNULL_BEGIN`.
pub open spec fn warns_region(source: Seq<char>, extension: Seq<char>) -> bool {
    !contains(source, "NS_ASSUME_NONNULL_BEGIN"@) && extension == "h"@
}

/// The pointer diagnostic for the finding `f` (line and column).
pub open spec fn pointer_diag_at(d: Diagnostic, f: (int, int)) -> bool {
    &&& d.range == rng(f.0, f.1, f.0, f.1 + 1)
    &&& d.message@ == pointer_message()
    &&& d.code matches Some(c) && c@ == "unannotated-pointer"@
}

/// From index `h` on, `diags` holds the diagnostics of `found`, in order.
pub open spec fn pointer_diags(diags: Seq<Diagnostic>, h: int, found: Seq<(int, int)>) -> bool {
    forall|i: int| 0 <= i < found.len() ==> pointer_diag_at(diags[h + i], #[trigger] found[i])
}

pub open spec fn is_nullability_diag(d: Diagnostic) -> bool {
    &&& d.severity == Some(DiagnosticSeverity::Warning)
    &&& d.source matches Some(s) && s@ == "objc-lsp/nullability"@
}

/// Returns `true` if `line` contains a bare `*` (pointer) that is not
/// accompanied by a nullability keyword on the same line.
pub fn has_unannotated_pointer(line: &str) -> (b: bool)
    ensures
        b == unannotated_pointer(line@),
{
    let v = chars_of(line);
    match range_find_char(&v, 0, v.len(), '*') {
        None => {
            assert(!has_char(line@, '*'));
            return false;
        },
        Some(_) => {},
    }
    let keywords: [&str; 7] = [
        "_Nullable",
        "_Nonnull",
        "_Null_unspecified",
        "nullable",
        "nonnull",
        "__nullable",
        "__nonnull",
    ];
    assert(keywords@.map_values(|k: &str| k@) =~= nullability_keywords());
    let mut i: usize = 0;
    while i < 7
        invariant
            i <= 7,
            keywords@.map_values(|k: &str| k@) == nullability_keywords(),
            forall|j: int| 0 <= j < i ==> !contains(line@, #[trigger] nullability_keywords()[j]),
        decreases 7 - i,
    {
        assert(keywords@[i as int]@ == nullability_keywords()[i as int]);
        if str_contains(line, keywords[i]) {
            return false;
        }
        i = i + 1;
    }
    true
}

fn warning(range: Range, message: &str, code: &str) -> (d: Diagnostic)
    ensures
        is_nullability_diag(d),
        d.range == range,
        d.message@ == message@,
        d.code matches Some(c) && c@ == code@,
{
    Diagnostic {
        range,
        severity: Some(DiagnosticSeverity::Warning),
        message: to_owned_string(message),
        source: Some(to_owned_string("objc-lsp/nullability")),
        code: Some(to_owned_string(code)),
    }
}

/// The pointer diagnostics of line `k`, spanning `v[a..b]`: one per `*`.
fn star_diags(v: &Vec<char>, a: usize, b: usize, k: u32) -> (r: Vec<Diagnostic>)
    requires
        a <= b <= v.len(),
        byte_len(v@.subrange(a as int, b as int)) < 0x1_0000_0000,
    ensures
        r.len() == line_findings(v@.subrange(a as int, b as int), k as int).len(),
        forall|i: int|
            0 <= i < r.len() ==> is_nullability_diag(#[trigger] r@[i]) && pointer_diag_at(
                r@[i],
                line_findings(v@.subrange(a as int, b as int), k as int)[i],
            ),
{
    let ghost line = v@.subrange(a as int, b as int);
    let mut r: Vec<Diagnostic> = Vec::new();
    let mut off: u64 = 0;
    let mut j: usize = a;
    while j < b
        invariant
            a <= j <= b <= v.len(),
            line == v@.subrange(a as int, b as int),
            byte_len(line) < 0x1_0000_0000,
            off == byte_len(v@.subrange(a as int, j as int)),
            r.len() == star_columns(v@.subrange(a as int, j as int)).len(),
            forall|i: int|
                0 <= i < r.len() ==> is_nullability_diag(#[trigger] r@[i]) && pointer_diag_at(
                    r@[i],
                    (k as int, star_columns(v@.subrange(a as int, j as int))[i]),
                ),
        decreases b - j,
    {
        let ghost cur = v@.subrange(a as int, j as int);
        let ghost nxt = v@.subrange(a as int, j + 1);
        proof {
            assert(nxt.drop_last() =~= cur);
            assert(nxt.last() == v@[j as int]);
            assert(line.subrange(0, j + 1 - a) =~= nxt);
            lemma_byte_len_subrange(line, 0, j + 1 - a);
        }
        let c = v[j];
        let w = char_utf8_len(c);
        if c == '*' {
            let p = Position { line: k, character: off as u32 };
            let q = Position { line: k, character: (off + 1) as u32 };
            let ghost before = r@;
            let d = warning(
                Range { start: p, end: q },
                "Pointer type lacks nullability annotation (_Nullable or _Nonnull). Wrap the file with NS_ASSUME_NONNULL_BEGIN/END or annotate explicitly.",
                "unannotated-pointer",
            );
            r.push(d);
            assert(star_columns(nxt) == star_columns(cur).push(off as int));
            assert forall|i: int| 0 <= i < r.len() implies is_nullability_diag(#[trigger] r@[i])
                && pointer_diag_at(r@[i], (k as int, star_columns(nxt)[i])) by {
                if i < before.len() {
                    assert(r@[i] == before[i]);
                }
            }
        } else {
            assert(star_columns(nxt) == star_columns(cur));
        }
        off = off + w as u64;
        j = j + 1;
    }
    assert(v@.subrange(a as int, j as int) =~= line);
    assert forall|i: int| 0 <= i < r.len() implies is_nullability_diag(#[trigger] r@[i])
        && pointer_diag_at(r@[i], line_findings(line, k as int)[i]) by {
        assert(line_findings(line, k as int)[i] == (k as int, star_columns(line)[i]));
    }
    r
}

/// The nullability diagnostics of raw source text: a
/// `missing-nonnull-region` warning at the start of a header that has no
/// `NS_ASSUME_NONNULL_BEGIN`, then an `unannotated-pointer` warning on each
/// `*` of every method declaration line, outside a nonnull region, that
/// carries no nullability keyword.
///
/// `extension` should be `"h"`, `"m"`, or `"mm"` — only `.h` files are
/// warned about a missing region macro.  Positions are `u32`, so the text
/// is at most `u32::MAX` bytes long.
pub fn nullability_diagnostics(source: &str, extension: &str) -> (diags: Vec<Diagnostic>)
    requires
        byte_len(source@) < 0x1_0000_0000,
    ensures
        ({
            let h: int = if warns_region(source@, extension@) {
                1
            } else {
                0
            };
            let found = pointer_scan(lines(source@)).1;
            &&& diags.len() == h + found.len()
            &&& forall|i: int| 0 <= i < diags.len() ==> is_nullability_diag(#[trigger] diags@[i])
            &&& h == 1 ==> diags@[0].range == rng(0, 0, 0, 0)
                && diags@[0].message@ == region_missing_message()
                && (diags@[0].code matches Some(c) && c@ == "missing-nonnull-region"@)
            &&& pointer_diags(diags@, h, found)
        }),
{
    let mut diags: Vec<Diagnostic> = Vec::new();
    let has_region = str_contains(source, "NS_ASSUME_NONNULL_BEGIN");
    let warn = !has_region && str_eq(extension, "h");
    if warn {
        let p = Position { line: 0, character: 0 };
        diags.push(
            warning(
                Range { start: p, end: p },
                "Header is missing NS_ASSUME_NONNULL_BEGIN/END — all pointer types are implicitly unaudited. Consider adding NS_ASSUME_NONNULL_BEGIN/END or annotating each pointer with _Nullable / _Nonnull.",
                "missing-nonnull-region",
            ),
        );
    }
    let ghost h: int = if warn {
        1
    } else {
        0
    };
    let v = chars_of(source);
    let spans = line_spans(&v);
    let ghost ls = lines(v@);
    proof {
        lemma_lines_len(v@);
        lemma_byte_len_lower(v@);
    }
    let begin = chars_of("NS_ASSUME_NONNULL_BEGIN");
    let end = chars_of("NS_ASSUME_NONNULL_END");
    let minus = chars_of("-");
    let plus = chars_of("+");
    let mut in_nonnull_region = false;
    let mut k: usize = 0;
    while k < spans.len()
        invariant
            v@ == source@,
            v@.len() <= byte_len(v@) < 0x1_0000_0000,
            h == (if warns_region(source@, extension@) {
                1int
            } else {
                0int
            }),
            ls == lines(v@),
            spans.len() == ls.len(),
            spans.len() <= v@.len(),
            forall|j: int| #![trigger spans@[j]] 0 <= j < spans.len() ==> spans@[j].0 <= spans@[j].1 <= v.len(),
            forall|j: int|
                #![trigger spans@[j]]
                0 <= j < spans.len() ==> v@.subrange(spans@[j].0 as int, spans@[j].1 as int) == ls[j],
            begin@ == "NS_ASSUME_NONNULL_BEGIN"@,
            end@ == "NS_ASSUME_NONNULL_END"@,
            minus@ == "-"@,
            plus@ == "+"@,
            k <= spans.len(),
            pointer_scan(ls.take(k as int)).0 == in_nonnull_region,
            diags.len() == h + pointer_scan(ls.take(k as int)).1.len(),
            forall|i: int| 0 <= i < diags.len() ==> is_nullability_diag(#[trigger] diags@[i]),
            h == 1 ==> diags@[0].range == rng(0, 0, 0, 0)
                && diags@[0].message@ == region_missing_message()
                && (diags@[0].code matches Some(c) && c@ == "missing-nonnull-region"@),
            pointer_diags(diags@, h, pointer_scan(ls.take(k as int)).1),
        decreases spans.len() - k,
    {
        let (a, b) = spans[k];
        let ghost line = ls[k as int];
        assert(v@.subrange(a as int, b as int) == line);
        assert(ls.take(k + 1).drop_last() =~= ls.take(k as int));
        assert(ls.take(k + 1).last() == line);
        let ghost prev = pointer_scan(ls.take(k as int));
        let ghost next = scan_step(prev, line, k as int);
        assert(pointer_scan(ls.take(k + 1)) == next);
        let (ta, tb) = trim_range(&v, a, b);
        let ghost t = trim(line);
        assert(v@.subrange(ta as int, tb as int) == t);
        let mut report = false;
        if range_contains(&v, ta, tb, &begin) {
            in_nonnull_region = true;
        } else if range_contains(&v, ta, tb, &end) {
            in_nonnull_region = false;
        } else if in_nonnull_region {
        } else if !(range_starts_with(&v, ta, tb, &minus) || range_starts_with(&v, ta, tb, &plus)) {
        } else {
            let ts = crate::text::string_of(&v, ta, tb);
            report = has_unannotated_pointer(ts.as_str());
        }
        if report {
            assert(next.1 == prev.1 + line_findings(line, k as int));
            proof {
                lemma_byte_len_subrange(v@, a as int, b as int);
            }
            let mut extra = star_diags(&v, a, b, k as u32);
            let ghost old_diags = diags@;
            let ghost ex = extra@;
            diags.append(&mut extra);
            assert(diags@ == old_diags + ex);
            assert forall|i: int| 0 <= i < diags.len() implies is_nullability_diag(#[trigger] diags@[i]) by {
                if i < old_diags.len() {
                    assert(diags@[i] == old_diags[i]);
                } else {
                    assert(diags@[i] == ex[i - old_diags.len()]);
                }
            }
            assert forall|i: int| 0 <= i < next.1.len() implies pointer_diag_at(
                diags@[h + i],
                #[trigger] next.1[i],
            ) by {
                if i < prev.1.len() {
                    assert(diags@[h + i] == old_diags[h + i]);
                    assert(next.1[i] == prev.1[i]);
                } else {
                    let e = i - prev.1.len();
                    assert(diags@[h + i] == ex[e]);
                    assert(next.1[i] == line_findings(line, k as int)[e]);
                }
            }
            assert(h == 1 ==> diags@[0] == old_diags[0]);
        } else {
            assert(next.1 == prev.1);
            assert forall|i: int| 0 <= i < next.1.len() implies pointer_diag_at(
                diags@[h + i],
                #[trigger] next.1[i],
            ) by {
                assert(next.1[i] == prev.1[i]);
            }
        }
        assert(next.0 == in_nonnull_region);
        assert(pointer_scan(ls.take(k + 1)) == next);
        k = k + 1;
    }
    assert(ls.take(k as int) =~= ls);
    diags
}

/// A line that carries a nullability keyword (`_Nullable`, `_Nonnull`,
/// `nullable` or `nonnull`) never counts as having an unannotated
/// pointer.
pub proof fn lemma_annotated_line_is_not_reported(line: Seq<char>)
    requires
        contains(line, "_Nullable"@) || contains(line, "_Nonnull"@) || contains(line, "nullable"@) || contains(
            line,
            "nonnull"@,
        ),
    ensures
        !unannotated_pointer(line),
{
    let ks = nullability_keywords();
    assert(ks[0] == "_Nullable"@);
    assert(ks[1] == "_Nonnull"@);
    assert(ks[3] == "nullable"@);
    assert(ks[4] == "nonnull"@);
}

proof fn lemma_keyword_has_no_ws(p: Seq<char>)
    requires
        p == "_Nullable"@ || p == "_Nonnull"@ || p == "nullable"@ || p == "nonnull"@,
    ensures
        p.len() > 0,
        forall|j: int| 0 <= j < p.len() ==> !is_ws(#[trigger] p[j]),
{
    reveal_strlit("_Nullable");
    reveal_strlit("_Nonnull");
    reveal_strlit("nullable");
    reveal_strlit("nonnull");
}

/// No pointer diagnostic is ever given for a line that carries a
/// nullability keyword: every finding of the scan names one of the lines,
/// and that line holds none of `_Nullable`, `_Nonnull`, `nullable`,
/// `nonnull`.
pub proof fn lemma_findings_avoid_annotated_lines(ls: Seq<Seq<char>>)
    ensures
        forall|f: (int, int)|
            #![trigger pointer_scan(ls).1.contains(f)]
            pointer_scan(ls).1.contains(f) ==> 0 <= f.0 < ls.len() && !contains(ls[f.0], "_Nullable"@)
                && !contains(ls[f.0], "_Nonnull"@) && !contains(ls[f.0], "nullable"@) && !contains(
                ls[f.0],
                "nonnull"@,
            ),
    decreases ls.len(),
{
    if ls.len() > 0 {
        let prev = pointer_scan(ls.drop_last());
        let line = ls.last();
        let k = ls.len() - 1;
        lemma_findings_avoid_annotated_lines(ls.drop_last());
        let next = scan_step(prev, line, k);
        assert(pointer_scan(ls) == next);
        let t = trim(line);
        if next.1 != prev.1 {
            assert(unannotated_pointer(t));
            assert(next.1 == prev.1 + line_findings(line, k));
            lemma_keyword_has_no_ws("_Nullable"@);
            lemma_keyword_has_no_ws("_Nonnull"@);
            lemma_keyword_has_no_ws("nullable"@);
            lemma_keyword_has_no_ws("nonnull"@);
            if contains(line, "_Nullable"@) {
                lemma_contains_trim(line, "_Nullable"@);
                lemma_annotated_line_is_not_reported(t);
            }
            if contains(line, "_Nonnull"@) {
                lemma_contains_trim(line, "_Nonnull"@);
                lemma_annotated_line_is_not_reported(t);
            }
            if contains(line, "nullable"@) {
                lemma_contains_trim(line, "nullable"@);
                lemma_annotated_line_is_not_reported(t);
            }
            if contains(line, "nonnull"@) {
                lemma_contains_trim(line, "nonnull"@);
                lemma_annotated_line_is_not_reported(t);
            }
        }
        assert forall|f: (int, int)| #![trigger pointer_scan(ls).1.contains(f)] pointer_scan(ls).1.contains(f)
            implies 0 <= f.0 < ls.len() && !contains(ls[f.0], "_Nullable"@) && !contains(ls[f.0], "_Nonnull"@)
            && !contains(ls[f.0], "nullable"@) && !contains(ls[f.0], "nonnull"@) by {
            let n = pointer_scan(ls).1;
            let i = choose|i: int| 0 <= i < n.len() && n[i] == f;
            if i < prev.1.len() {
                assert(n[i] == prev.1[i]);
                assert(prev.1.contains(f));
                assert(ls.drop_last()[f.0] == ls[f.0]);
            } else {
                let lf = line_findings(line, k);
                assert(n == prev.1 + lf);
                assert(n[i] == lf[i - prev.1.len()]);
                assert(f.0 == k);
            }
        }
    }
}

proof fn lemma_star_columns(l: Seq<char>)
    ensures
        forall|x: int|
            #![trigger star_columns(l).contains(x)]
            star_columns(l).contains(x) ==> exists|j: int|
                0 <= j < l.len() && l[j] == '*' && x == byte_len(#[trigger] l.take(j)),
        has_char(l, '*') ==> star_columns(l).len() > 0,
    decreases l.len(),
{
    if l.len() > 0 {
        let r = l.drop_last();
        lemma_star_columns(r);
        let q = star_columns(r);
        assert forall|x: int| #![trigger star_columns(l).contains(x)] star_columns(l).contains(x) implies exists|j: int|
            0 <= j < l.len() && l[j] == '*' && x == byte_len(#[trigger] l.take(j)) by {
            let n = star_columns(l);
            let i = choose|i: int| 0 <= i < n.len() && n[i] == x;
            if i < q.len() {
                assert(n[i] == q[i]);
                assert(q.contains(x));
                let j = choose|j: int| 0 <= j < r.len() && r[j] == '*' && x == byte_len(#[trigger] r.take(j));
                assert(r.take(j) =~= l.take(j));
                assert(l[j] == r[j]);
            } else {
                assert(l.last() == '*');
                assert(x == byte_len(r));
                assert(l.take(l.len() - 1) =~= r);
            }
        }
        if has_char(l, '*') && l.last() != '*' {
            let j = choose|j: int| 0 <= j < l.len() && l[j] == '*';
            assert(r[j] == '*');
        }
    }
}

/// A method declaration written alone, with a pointer and no nullability
/// keyword, is warned about: one warning for each of its `*`, each at the
/// byte column of a `*` of the line.
pub proof fn lemma_bare_pointer_is_reported(l: Seq<char>)
    requires
        l.len() > 0,
        l[0] == '-' || l[0] == '+',
        !is_ws(l.last()),
        has_char(l, '*'),
        forall|i: int| 0 <= i < nullability_keywords().len() ==> !contains(l, #[trigger] nullability_keywords()[i]),
        !contains(l, "NS_ASSUME_NONNULL_BEGIN"@),
        !contains(l, "NS_ASSUME_NONNULL_END"@),
    ensures
        pointer_scan(seq![l]).1.len() > 0,
        forall|f: (int, int)|
            #![trigger pointer_scan(seq![l]).1.contains(f)]
            pointer_scan(seq![l]).1.contains(f) ==> f.0 == 0 && exists|j: int|
                0 <= j < l.len() && l[j] == '*' && f.1 == byte_len(#[trigger] l.take(j)),
{
    reveal_strlit("-");
    reveal_strlit("+");
    assert(trim_start(l) == l);
    assert(trim_end(l) == l);
    assert(trim(l) == l);
    assert(starts_with(l, "-"@) || starts_with(l, "+"@)) by {
        assert("-"@ =~= seq!['-']);
        assert("+"@ =~= seq!['+']);
        assert(l.take(1) =~= seq![l[0]]);
        assert(l.subrange(0, 1) =~= seq![l[0]]);
    }
    let ls = seq![l];
    assert(ls.drop_last() =~= Seq::<Seq<char>>::empty());
    assert(pointer_scan(Seq::<Seq<char>>::empty()) == (false, Seq::<(int, int)>::empty()));
    assert(pointer_scan(ls) == scan_step((false, Seq::<(int, int)>::empty()), l, 0));
    assert(unannotated_pointer(l));
    let lf = line_findings(l, 0);
    assert(pointer_scan(ls).1 =~= lf);
    lemma_star_columns(l);
    assert forall|f: (int, int)| #![trigger pointer_scan(seq![l]).1.contains(f)] pointer_scan(seq![l]).1.contains(f)
        implies f.0 == 0 && exists|j: int| 0 <= j < l.len() && l[j] == '*' && f.1 == byte_len(#[trigger] l.take(j)) by {
        let i = choose|i: int| 0 <= i < lf.len() && lf[i] == f;
        assert(f == (0int, star_columns(l)[i]));
        assert(star_columns(l).contains(f.1));
    }
}

} // verus!
