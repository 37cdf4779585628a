//! Minimal .xcodeproj / pbxproj support.
//!
//! Extracts per-file compiler flags from an Xcode project without
//! `xcodebuild`: the `project.pbxproj` text, as Xcode writes it (one
//! setting or list item per line), is read line by line for its source
//! file references and the build settings that give compile flags
//! (`OTHER_CFLAGS`, `GCC_PREPROCESSOR_DEFINITIONS`, `HEADER_SEARCH_PATHS`,
//! with `$(SRCROOT)` replaced by the project's root).

use vstd::prelude::*;

use crate::compile_db::{paths_equal, same_path};
use crate::paths::{extension, joined, parent_of, path_extension, path_join, path_parent};
use crate::project::{CompileFlags, FlagResolver};
use crate::text::{
    append_str, append_string, chars_of, contains, ends_with, extend_strings, first_occurrence, first_of, has_char,
    lemma_first_of, line_spans, lines, occurs_at, range_contains, range_ends_with, range_find,
    range_find_char, range_starts_with, split_whitespace, starts_with, str_ends_with, str_eq,
    str_starts_with, string_of, to_owned_string, trim, trim_range, views, words,
};

verus! {

/// A loaded Xcode project.
pub struct XcodeProject {
    /// Each source file with its compile flags.
    file_flags: Vec<(String, CompileFlags)>,
}

/// The entry of `file`: the first one with the same path, otherwise the
/// first one whose path text ends with `file`.
pub open spec fn project_entry(files: Seq<(String, CompileFlags)>, file: Seq<char>) -> Option<int> {
    if exists|i: int| 0 <= i < files.len() && same_path(files[i].0@, file) {
        Some(choose|i: int| 0 <= i < files.len() && same_path(files[i].0@, file) && forall|j: int|
            0 <= j < i ==> !same_path(#[trigger] files[j].0@, file))
    } else if exists|i: int| 0 <= i < files.len() && ends_with(files[i].0@, file) {
        Some(choose|i: int| 0 <= i < files.len() && ends_with(files[i].0@, file) && forall|j: int|
            0 <= j < i ==> !ends_with(#[trigger] files[j].0@, file))
    } else {
        None
    }
}

impl XcodeProject {
    pub closed spec fn files(&self) -> Seq<(String, CompileFlags)> {
        self.file_flags@
    }

    /// Flags for `file`: those of an entry with the same path, otherwise of
    /// one whose path ends with `file`.
    pub fn flags_for_file(&self, file: &str) -> (r: Option<CompileFlags>)
        ensures
            match project_entry(self.files(), file@) {
                Some(i) => r is Some && r->0.args@ == self.files()[i].1.args@ && r->0.working_dir@
                    == self.files()[i].1.working_dir@,
                None => r is None,
            },
    {
        let ghost files = self.file_flags@;
        let mut i: usize = 0;
        while i < self.file_flags.len()
            invariant
                files == self.file_flags@,
                i <= files.len(),
                forall|j: int| 0 <= j < i ==> !same_path(#[trigger] files[j].0@, file@),
            decreases files.len() - i,
        {
            if paths_equal(self.file_flags[i].0.as_str(), file) {
                let f = &self.file_flags[i].1;
                assert(project_entry(files, file@) == Some(i as int)) by {
                    let k = choose|k: int|
                        0 <= k < files.len() && same_path(files[k].0@, file@) && forall|j: int|
                            0 <= j < k ==> !same_path(#[trigger] files[j].0@, file@);
                    assert(!(k < i));
                    assert(!(i < k));
                }
                return Some(CompileFlags { args: f.args.clone(), working_dir: f.working_dir.clone() });
            }
            i = i + 1;
        }
        let mut i: usize = 0;
        while i < self.file_flags.len()
            invariant
                files == self.file_flags@,
                i <= files.len(),
                forall|j: int| 0 <= j < files.len() ==> !same_path(#[trigger] files[j].0@, file@),
                forall|j: int| 0 <= j < i ==> !ends_with(#[trigger] files[j].0@, file@),
            decreases files.len() - i,
        {
            if str_ends_with(self.file_flags[i].0.as_str(), file) {
                let f = &self.file_flags[i].1;
                assert(project_entry(files, file@) == Some(i as int)) by {
                    let k = choose|k: int|
                        0 <= k < files.len() && ends_with(files[k].0@, file@) && forall|j: int|
                            0 <= j < k ==> !ends_with(#[trigger] files[j].0@, file@);
                    assert(!(k < i));
                    assert(!(i < k));
                }
                return Some(CompileFlags { args: f.args.clone(), working_dir: f.working_dir.clone() });
            }
            i = i + 1;
        }
        None
    }
}

impl FlagResolver for XcodeProject {
    /// Flags for `file` (see `flags_for_file`).
    fn flags_for(&self, file: &str) -> (r: Option<CompileFlags>)
        ensures
            match project_entry(self.files(), file@) {
                Some(i) => r is Some && r->0.args@ == self.files()[i].1.args@ && r->0.working_dir@
                    == self.files()[i].1.working_dir@,
                None => r is None,
            },
    {
        self.flags_for_file(file)
    }
}

/// A value with its surrounding double quotes, if any, removed.
pub open spec fn unquote(v: Seq<char>) -> Seq<char> {
    if v.len() >= 2 && v[0] == '"' && v.last() == '"' {
        v.subrange(1, v.len() - 1)
    } else {
        v
    }
}

/// The value that starts `rest`: the text before the first `;` (all of
/// it when there is none), trimmed and unquoted.
pub open spec fn plist_value(rest: Seq<char>) -> Seq<char> {
    unquote(trim(rest.take(first_of(rest, ';') as int)))
}

/// A list item line without its trailing `,`.
pub open spec fn strip_comma(t: Seq<char>) -> Seq<char> {
    if ends_with(t, ","@) {
        t.drop_last()
    } else {
        t
    }
}

/// The build settings that give compile flags, by index: `OTHER_CFLAGS`,
/// `GCC_PREPROCESSOR_DEFINITIONS`, `HEADER_SEARCH_PATHS`.
pub open spec fn setting_keys() -> Seq<Seq<char>> {
    seq!["OTHER_CFLAGS"@, "GCC_PREPROCESSOR_DEFINITIONS"@, "HEADER_SEARCH_PATHS"@]
}

/// The index of the setting that the trimmed line `t` assigns
/// (`KEY = ...`), if it is one of `setting_keys`.
pub open spec fn setting_key(t: Seq<char>) -> Option<int> {
    if starts_with(t, setting_keys()[0] + " = "@) {
        Some(0)
    } else if starts_with(t, setting_keys()[1] + " = "@) {
        Some(1)
    } else if starts_with(t, setting_keys()[2] + " = "@) {
        Some(2)
    } else {
        None
    }
}

/// One line of the settings scan.  The state is the setting whose list
/// is open, if any, and the `(setting, value)` pairs found so far.  A
/// list (`KEY = (` ... `);`, one item per line) gives one pair per item;
/// a plain `KEY = value;` gives one pair; a list written on one line is
/// skipped.
pub open spec fn settings_step(st: (Option<int>, Seq<(int, Seq<char>)>), line: Seq<char>) -> (Option<int>, Seq<(int, Seq<char>)>) {
    let t = trim(line);
    match st.0 {
        Some(k) => if starts_with(t, ")"@) {
            (None, st.1)
        } else {
            (Some(k), st.1.push((k, unquote(trim(strip_comma(t))))))
        },
        None => match setting_key(t) {
            None => st,
            Some(k) => {
                let rest = trim(t.skip(setting_keys()[k].len() as int + 3));
                if starts_with(rest, "("@) {
                    if has_char(rest, ')') {
                        st
                    } else {
                        (Some(k), st.1)
                    }
                } else {
                    (None, st.1.push((k, plist_value(rest))))
                }
            },
        },
    }
}

/// The settings scan over the lines `ls`.
pub open spec fn settings_scan(ls: Seq<Seq<char>>) -> (Option<int>, Seq<(int, Seq<char>)>)
    decreases ls.len(),
{
    if ls.len() == 0 {
        (None, seq![])
    } else {
        settings_step(settings_scan(ls.drop_last()), ls.last())
    }
}

/// `unquote(trim(v[a..b]))`, as a range of `v`.
fn unquote_range(v: &Vec<char>, a: usize, b: usize) -> (r: (usize, usize))
    requires
        a <= b <= v.len(),
    ensures
        r.0 <= r.1 <= v.len(),
        v@.subrange(r.0 as int, r.1 as int) == unquote(trim(v@.subrange(a as int, b as int))),
{
    let (ta, tb) = trim_range(v, a, b);
    let ghost t = v@.subrange(ta as int, tb as int);
    if tb - ta >= 2 && v[ta] == '"' && v[tb - 1] == '"' {
        assert(t[0] == v@[ta as int]);
        assert(t.last() == v@[tb - 1]);
        assert(v@.subrange(ta + 1, tb - 1) =~= t.subrange(1, t.len() - 1));
        (ta + 1, tb - 1)
    } else {
        (ta, tb)
    }
}

/// `plist_value(v[a..b])`, as a range of `v`.
fn value_range(v: &Vec<char>, a: usize, b: usize) -> (r: (usize, usize))
    requires
        a <= b <= v.len(),
    ensures
        r.0 <= r.1 <= v.len(),
        v@.subrange(r.0 as int, r.1 as int) == plist_value(v@.subrange(a as int, b as int)),
{
    let ghost rest = v@.subrange(a as int, b as int);
    let end = match range_find_char(v, a, b, ';') {
        Some(j) => {
            proof {
                lemma_first_of(rest, ';', j as int);
            }
            a + j
        },
        None => {
            proof {
                lemma_first_of(rest, ';', rest.len() as int);
            }
            b
        },
    };
    assert(v@.subrange(a as int, end as int) =~= rest.take(first_of(rest, ';') as int));
    unquote_range(v, a, end)
}

/// The `(setting, value)` pairs of the build settings of a project file
/// (see `settings_scan`), setting by index into `setting_keys`.
pub fn build_settings(src: &str) -> (r: Vec<(usize, String)>)
    ensures
        r@.map_values(|p: (usize, String)| (p.0 as int, p.1@)) == settings_scan(lines(src@)).1,
        forall|i: int| 0 <= i < r.len() ==> (#[trigger] r@[i]).0 < 3,
{
    let v = chars_of(src);
    let spans = line_spans(&v);
    let ghost ls = lines(v@);
    let keys: Vec<Vec<char>> = vec![
        chars_of("OTHER_CFLAGS = "),
        chars_of("GCC_PREPROCESSOR_DEFINITIONS = "),
        chars_of("HEADER_SEARCH_PATHS = "),
    ];
    proof {
        reveal_strlit("OTHER_CFLAGS");
        reveal_strlit("GCC_PREPROCESSOR_DEFINITIONS");
        reveal_strlit("HEADER_SEARCH_PATHS");
        reveal_strlit(" = ");
        reveal_strlit("OTHER_CFLAGS = ");
        reveal_strlit("GCC_PREPROCESSOR_DEFINITIONS = ");
        reveal_strlit("HEADER_SEARCH_PATHS = ");
        assert(keys@[0]@ =~= setting_keys()[0] + " = "@);
        assert(keys@[1]@ =~= setting_keys()[1] + " = "@);
        assert(keys@[2]@ =~= setting_keys()[2] + " = "@);
    }
    let close = chars_of(")");
    let open = chars_of("(");
    let comma = chars_of(",");
    proof {
        reveal_strlit(",");
    }
    let mut out: Vec<(usize, String)> = Vec::new();
    let mut list: Option<usize> = None;
    let mut k: usize = 0;
    while k < spans.len()
        invariant
            v@ == src@,
            ls == lines(v@),
            spans.len() == ls.len(),
            forall|j: int| #![trigger spans@[j]] 0 <= j < spans.len() ==> spans@[j].0 <= spans@[j].1 <= v.len(),
            forall|j: int|
                #![trigger spans@[j]]
                0 <= j < spans.len() ==> v@.subrange(spans@[j].0 as int, spans@[j].1 as int) == ls[j],
            keys.len() == 3,
            forall|i: int| 0 <= i < 3 ==> (#[trigger] keys@[i])@ == setting_keys()[i] + " = "@,
            close@ == ")"@,
            open@ == "("@,
            comma@ == ","@,
            k <= spans.len(),
            settings_scan(ls.take(k as int)).0 == match list {
                Some(i) => Some(i as int),
                None => None::<int>,
            },
            list matches Some(i) ==> i < 3,
            forall|i: int| 0 <= i < out.len() ==> (#[trigger] out@[i]).0 < 3,
            out@.map_values(|p: (usize, String)| (p.0 as int, p.1@)) == settings_scan(ls.take(k as int)).1,
        decreases spans.len() - k,
    {
        let (a, b) = spans[k];
        let ghost line = ls[k as int];
        assert(v@.subrange(a as int, b as int) == line);
        assert(ls.take(k + 1).drop_last() =~= ls.take(k as int));
        assert(ls.take(k + 1).last() == line);
        let ghost prev = settings_scan(ls.take(k as int));
        let ghost next = settings_step(prev, line);
        assert(settings_scan(ls.take(k + 1)) == next);
        let ghost before = out@;
        let (ta, tb) = trim_range(&v, a, b);
        let ghost t = trim(line);
        assert(v@.subrange(ta as int, tb as int) == t);
        match list {
            Some(i) => {
                if range_starts_with(&v, ta, tb, &close) {
                    list = None;
                } else {
                    let cb = if range_ends_with(&v, ta, tb, &comma) {
                        proof {
                            reveal_strlit(",");
                        }
                        assert(comma@.len() == 1);
                        assert(tb - ta >= 1);
                        assert(v@.subrange(ta as int, tb - 1) =~= t.drop_last());
                        tb - 1
                    } else {
                        tb
                    };
                    assert(v@.subrange(ta as int, cb as int) == strip_comma(t));
                    let (ua, ub) = unquote_range(&v, ta, cb);
                    let item = string_of(&v, ua, ub);
                    out.push((i, item));
                    assert(out@.map_values(|p: (usize, String)| (p.0 as int, p.1@)) =~= before.map_values(
                        |p: (usize, String)| (p.0 as int, p.1@),
                    ).push((i as int, item@)));
                }
            },
            None => {
                let mut found: Option<usize> = None;
                let mut q: usize = 0;
                while q < 3
                    invariant
                        q <= 3,
                        keys.len() == 3,
                        ta <= tb <= v.len(),
                        v@.subrange(ta as int, tb as int) == t,
                        forall|i: int| 0 <= i < 3 ==> (#[trigger] keys@[i])@ == setting_keys()[i] + " = "@,
                        match found {
                            Some(f) => f < 3 && setting_key(t) == Some(f as int),
                            None => forall|i: int| 0 <= i < q ==> !starts_with(t, #[trigger] setting_keys()[i] + " = "@),
                        },
                    decreases 3 - q,
                {
                    if found.is_none() && range_starts_with(&v, ta, tb, &keys[q]) {
                        found = Some(q);
                    }
                    q = q + 1;
                }
                match found {
                    None => {
                        assert(setting_key(t) is None);
                    },
                    Some(f) => {
                        let klen = keys[f].len();
                        assert(keys@[f as int]@ == setting_keys()[f as int] + " = "@);
                        proof {
                            reveal_strlit(" = ");
                        }
                        assert(" = "@.len() == 3);
                        assert(klen == setting_keys()[f as int].len() + 3);
                        let (ra, rb) = trim_range(&v, ta + klen, tb);
                        assert(v@.subrange(ta + klen, tb as int) =~= t.skip(setting_keys()[f as int].len() as int + 3));
                        let ghost rest = trim(t.skip(setting_keys()[f as int].len() as int + 3));
                        if range_starts_with(&v, ra, rb, &open) {
                            match range_find_char(&v, ra, rb, ')') {
                                Some(j) => {
                                    assert(rest[j as int] == ')');
                                },
                                None => {
                                    list = Some(f);
                                },
                            }
                        } else {
                            let (va, vb) = value_range(&v, ra, rb);
                            let item = string_of(&v, va, vb);
                            out.push((f, item));
                            assert(out@.map_values(|p: (usize, String)| (p.0 as int, p.1@)) =~= before.map_values(
                                |p: (usize, String)| (p.0 as int, p.1@),
                            ).push((f as int, item@)));
                        }
                    },
                }
            },
        }
        k = k + 1;
    }
    assert(ls.take(k as int) =~= ls);
    out
}

/// The header search path `v` with a leading `$(SRCROOT)` replaced by the
/// project's root directory `root`.
pub open spec fn search_path(v: Seq<char>, root: Seq<char>) -> Seq<char> {
    if starts_with(v, "$(SRCROOT)"@) {
        root + v.skip(10)
    } else {
        v
    }
}

/// The words of `ws` but `$(inherited)`, in order.
pub open spec fn drop_inherited(ws: Seq<Seq<char>>) -> Seq<Seq<char>>
    decreases ws.len(),
{
    if ws.len() == 0 {
        seq![]
    } else if ws.last() == "$(inherited)"@ {
        drop_inherited(ws.drop_last())
    } else {
        drop_inherited(ws.drop_last()).push(ws.last())
    }
}

/// The compile flags of one setting value: the words of `OTHER_CFLAGS`,
/// `-D` with a preprocessor definition, `-I` with a header search path;
/// none for `$(inherited)`.
pub open spec fn setting_flags(k: int, v: Seq<char>, root: Seq<char>) -> Seq<Seq<char>> {
    if v == "$(inherited)"@ {
        seq![]
    } else if k == 0 {
        drop_inherited(words(v))
    } else if k == 1 {
        seq!["-D"@ + v]
    } else {
        seq!["-I"@ + search_path(v, root)]
    }
}

/// The flags of the settings, in order.
pub open spec fn settings_flags(s: Seq<(int, Seq<char>)>, root: Seq<char>) -> Seq<Seq<char>>
    decreases s.len(),
{
    if s.len() == 0 {
        seq![]
    } else {
        settings_flags(s.drop_last(), root) + setting_flags(s.last().0, s.last().1, root)
    }
}

/// `s` with each repeated item left out after its first occurrence.
pub open spec fn dedup(s: Seq<Seq<char>>) -> Seq<Seq<char>>
    decreases s.len(),
{
    if s.len() == 0 {
        seq![]
    } else if dedup(s.drop_last()).contains(s.last()) {
        dedup(s.drop_last())
    } else {
        dedup(s.drop_last()).push(s.last())
    }
}

/// The root directory of the project in `proj_dir` (the `.xcodeproj`
/// package): the directory that holds it.
pub open spec fn pbx_root(proj_dir: Seq<char>) -> Seq<char> {
    match parent_of(proj_dir) {
        Some(r) => r,
        None => proj_dir,
    }
}

/// The flags given to every source file of a project file `src` whose
/// package is `proj_dir`: those of all its build settings, without
/// repeats.
pub open spec fn project_flags(proj_dir: Seq<char>, src: Seq<char>) -> Seq<Seq<char>> {
    dedup(settings_flags(settings_scan(lines(src)).1, pbx_root(proj_dir)))
}

/// Source files compile with these extensions.
pub open spec fn is_source_ext(e: Option<Seq<char>>) -> bool {
    e == Some("m"@) || e == Some("mm"@) || e == Some("c"@) || e == Some("cc"@) || e == Some("cpp"@)
}

/// The path of the file that a `PBXFileReference` line names.
pub open spec fn file_ref(line: Seq<char>) -> Option<Seq<char>> {
    if contains(line, "isa = PBXFileReference;"@) && contains(line, "path = "@) {
        Some(plist_value(line.skip(first_occurrence(line, "path = "@) + 7)))
    } else {
        None
    }
}

/// The paths of the source files that the lines `ls` reference, in order.
pub open spec fn source_refs(ls: Seq<Seq<char>>) -> Seq<Seq<char>>
    decreases ls.len(),
{
    if ls.len() == 0 {
        seq![]
    } else {
        match file_ref(ls.last()) {
            Some(p) if is_source_ext(path_extension(p)) => source_refs(ls.drop_last()).push(p),
            _ => source_refs(ls.drop_last()),
        }
    }
}

fn setting_flags_exec(k: usize, v: &String, root: &String) -> (r: Vec<String>)
    requires
        k < 3,
    ensures
        views(r@) == setting_flags(k as int, v@, root@),
{
    let mut r: Vec<String> = Vec::new();
    proof {
        reveal_strlit("$(inherited)");
        reveal_strlit("$(SRCROOT)");
    }
    if str_eq(v.as_str(), "$(inherited)") {
        assert(views(r@) =~= Seq::<Seq<char>>::empty());
        return r;
    }
    if k == 0 {
        let ws = split_whitespace(v.as_str());
        let ghost wv = words(v@);
        let mut i: usize = 0;
        assert(wv.take(0) =~= Seq::<Seq<char>>::empty());
        while i < ws.len()
            invariant
                i <= ws.len(),
                ws.len() == wv.len(),
                wv == words(v@),
                forall|j: int| 0 <= j < ws.len() ==> #[trigger] ws@[j]@ == wv[j],
                views(r@) == drop_inherited(wv.take(i as int)),
            decreases ws.len() - i,
        {
            assert(wv.take(i + 1).drop_last() =~= wv.take(i as int));
            assert(wv.take(i + 1).last() == ws@[i as int]@);
            if !str_eq(ws[i].as_str(), "$(inherited)") {
                let ghost before = views(r@);
                r.push(ws[i].clone());
                assert(views(r@) =~= before.push(ws@[i as int]@));
            }
            i = i + 1;
        }
        assert(wv.take(i as int) =~= wv);
        return r;
    }
    let mut s = String::new();
    if k == 1 {
        append_str(&mut s, "-D");
        append_string(&mut s, v);
        assert(s@ == "-D"@ + v@);
    } else {
        append_str(&mut s, "-I");
        if str_starts_with(v.as_str(), "$(SRCROOT)") {
            assert("$(SRCROOT)"@.len() == 10);
            let cv = chars_of(v.as_str());
            append_string(&mut s, root);
            let tail = string_of(&cv, 10, cv.len());
            assert(tail@ =~= v@.skip(10));
            append_string(&mut s, &tail);
            assert(s@ =~= "-I"@ + search_path(v@, root@));
        } else {
            append_string(&mut s, v);
            assert(s@ =~= "-I"@ + search_path(v@, root@));
        }
    }
    let ghost sv = s@;
    r.push(s);
    assert(views(r@) =~= seq![sv]);
    r
}

/// Whether `s` holds `x`.
fn holds_string(s: &Vec<String>, x: &String) -> (b: bool)
    ensures
        b == views(s@).contains(x@),
{
    let mut i: usize = 0;
    while i < s.len()
        invariant
            i <= s.len(),
            forall|j: int| 0 <= j < i ==> views(s@)[j] != x@,
        decreases s.len() - i,
    {
        assert(views(s@)[i as int] == s@[i as int]@);
        if str_eq(s[i].as_str(), x.as_str()) {
            assert(views(s@)[i as int] == x@);
            return true;
        }
        i = i + 1;
    }
    false
}

/// The compile flags of the build settings `settings` (see
/// `settings_flags`), without repeats.
pub fn flags_of_settings(settings: &Vec<(usize, String)>, root: &String) -> (r: Vec<String>)
    requires
        forall|i: int| 0 <= i < settings.len() ==> (#[trigger] settings@[i]).0 < 3,
    ensures
        views(r@) == dedup(settings_flags(settings@.map_values(|p: (usize, String)| (p.0 as int, p.1@)), root@)),
{
    let ghost sv = settings@.map_values(|p: (usize, String)| (p.0 as int, p.1@));
    let mut all: Vec<String> = Vec::new();
    let mut i: usize = 0;
    assert(sv.take(0) =~= Seq::<(int, Seq<char>)>::empty());
    while i < settings.len()
        invariant
            i <= settings.len(),
            sv == settings@.map_values(|p: (usize, String)| (p.0 as int, p.1@)),
            forall|j: int| 0 <= j < settings.len() ==> (#[trigger] settings@[j]).0 < 3,
            views(all@) == settings_flags(sv.take(i as int), root@),
        decreases settings.len() - i,
    {
        assert(sv.take(i + 1).drop_last() =~= sv.take(i as int));
        assert(sv.take(i + 1).last() == (settings@[i as int].0 as int, settings@[i as int].1@));
        let f = setting_flags_exec(settings[i].0, &settings[i].1, root);
        let ghost before = views(all@);
        extend_strings(&mut all, &f);
        assert(views(all@) =~= before + views(f@));
        i = i + 1;
    }
    assert(sv.take(i as int) =~= sv);
    let ghost fl = views(all@);
    let mut r: Vec<String> = Vec::new();
    let mut j: usize = 0;
    assert(fl.take(0) =~= Seq::<Seq<char>>::empty());
    while j < all.len()
        invariant
            j <= all.len(),
            fl == views(all@),
            views(r@) == dedup(fl.take(j as int)),
        decreases all.len() - j,
    {
        assert(fl.take(j + 1).drop_last() =~= fl.take(j as int));
        assert(fl.take(j + 1).last() == all@[j as int]@);
        if !holds_string(&r, &all[j]) {
            let ghost before = views(r@);
            r.push(all[j].clone());
            assert(views(r@) =~= before.push(all@[j as int]@));
        }
        j = j + 1;
    }
    assert(fl.take(j as int) =~= fl);
    r
}

/// The source file that the line `v[a..b]` references, if any (see
/// `source_refs`).
fn line_source_ref(v: &Vec<char>, a: usize, b: usize, isa: &Vec<char>, path_key: &Vec<char>) -> (r: Option<String>)
    requires
        a <= b <= v.len(),
        isa@ == "isa = PBXFileReference;"@,
        path_key@ == "path = "@,
    ensures
        match file_ref(v@.subrange(a as int, b as int)) {
            Some(p) if is_source_ext(path_extension(p)) => r matches Some(q) && q@ == p,
            _ => r is None,
        },
{
    let ghost line = v@.subrange(a as int, b as int);
    if !range_contains(v, a, b, isa) {
        return None;
    }
    match range_find(v, a, b, path_key) {
        Some(i) => {
            proof {
                reveal_strlit("path = ");
            }
            assert(path_key@.len() == 7);
            assert(occurs_at(line, path_key@, i as int));
            assert(first_occurrence(line, "path = "@) == i as int) by {
                let c = first_occurrence(line, "path = "@);
                assert(occurs_at(line, "path = "@, c) && forall|j: int|
                    0 <= j < c ==> !occurs_at(line, "path = "@, j));
                assert(!(c < i));
                assert(!(i < c));
            }
            assert(contains(line, "path = "@));
            let (va, vb) = value_range(v, a + i + 7, b);
            assert(v@.subrange(a + i + 7, b as int) =~= line.skip(i + 7));
            let p = string_of(v, va, vb);
            assert(file_ref(line) == Some(p@));
            let e = extension(p.as_str());
            let keep = match &e {
                Some(x) => str_eq(x.as_str(), "m") || str_eq(x.as_str(), "mm") || str_eq(x.as_str(), "c")
                    || str_eq(x.as_str(), "cc") || str_eq(x.as_str(), "cpp"),
                None => false,
            };
            assert(keep == is_source_ext(path_extension(p@)));
            if keep {
                Some(p)
            } else {
                None
            }
        },
        None => {
            assert(!contains(line, "path = "@));
            None
        },
    }
}

/// The paths of the source files that a project file references (see
/// `source_refs`).
pub fn source_file_refs(src: &str) -> (r: Vec<String>)
    ensures
        views(r@) == source_refs(lines(src@)),
{
    let v = chars_of(src);
    let spans = line_spans(&v);
    let ghost ls = lines(v@);
    let isa = chars_of("isa = PBXFileReference;");
    let path_key = chars_of("path = ");
    let mut out: Vec<String> = Vec::new();
    let mut k: usize = 0;
    assert(ls.take(0) =~= Seq::<Seq<char>>::empty());
    while k < spans.len()
        invariant
            v@ == src@,
            ls == lines(v@),
            spans.len() == ls.len(),
            forall|j: int| #![trigger spans@[j]] 0 <= j < spans.len() ==> spans@[j].0 <= spans@[j].1 <= v.len(),
            forall|j: int|
                #![trigger spans@[j]]
                0 <= j < spans.len() ==> v@.subrange(spans@[j].0 as int, spans@[j].1 as int) == ls[j],
            isa@ == "isa = PBXFileReference;"@,
            path_key@ == "path = "@,
            k <= spans.len(),
            views(out@) == source_refs(ls.take(k as int)),
        decreases spans.len() - k,
    {
        let (a, b) = spans[k];
        let ghost line = ls[k as int];
        assert(v@.subrange(a as int, b as int) == line);
        assert(ls.take(k + 1).drop_last() =~= ls.take(k as int));
        assert(ls.take(k + 1).last() == line);
        let ghost before = views(out@);
        match line_source_ref(&v, a, b, &isa, &path_key) {
            Some(p) => {
                let ghost pv = p@;
                out.push(p);
                assert(views(out@) =~= before.push(pv));
            },
            None => {},
        }
        k = k + 1;
    }
    assert(ls.take(k as int) =~= ls);
    out
}

/// Builds the project of the `.xcodeproj` package `proj_dir` from the
/// text of its `project.pbxproj`: each source file that a
/// `PBXFileReference` names (see `source_refs`), as a path under the
/// project's root (the directory that holds the package), gets the flags
/// of the build settings `OTHER_CFLAGS`, `GCC_PREPROCESSOR_DEFINITIONS`
/// and `HEADER_SEARCH_PATHS` (see `project_flags`), with that root as its
/// working directory.  A file's path is read relative to the root; the
/// groups that may nest it deeper are not followed.
pub fn parse_pbxproj(proj_dir: &str, src: &str) -> (p: XcodeProject)
    ensures
        p.files().len() == source_refs(lines(src@)).len(),
        forall|i: int|
            0 <= i < p.files().len() ==> (#[trigger] p.files()[i]).0@ == joined(
                pbx_root(proj_dir@),
                source_refs(lines(src@))[i],
            ) && views(p.files()[i].1.args@) == project_flags(proj_dir@, src@) && p.files()[i].1.working_dir@
                == pbx_root(proj_dir@),
{
    let root = match path_parent(proj_dir) {
        Some(r) => r,
        None => to_owned_string(proj_dir),
    };
    let settings = build_settings(src);
    let flags = flags_of_settings(&settings, &root);
    let refs = source_file_refs(src);
    let ghost rs = source_refs(lines(src@));
    let mut files: Vec<(String, CompileFlags)> = Vec::new();
    let mut i: usize = 0;
    while i < refs.len()
        invariant
            i <= refs.len(),
            views(refs@) == rs,
            root@ == pbx_root(proj_dir@),
            views(flags@) == project_flags(proj_dir@, src@),
            files.len() == i,
            forall|j: int|
                0 <= j < i ==> (#[trigger] files@[j]).0@ == joined(root@, rs[j]) && views(files@[j].1.args@)
                    == project_flags(proj_dir@, src@) && files@[j].1.working_dir@ == root@,
        decreases refs.len() - i,
    {
        assert(views(refs@)[i as int] == refs@[i as int]@);
        let path = path_join(root.as_str(), refs[i].as_str());
        let args = flags.clone();
        assert(args@ =~= flags@);
        files.push((path, CompileFlags { args, working_dir: root.clone() }));
        i = i + 1;
    }
    XcodeProject { file_flags: files }
}

/// Whether `path` names an Xcode project package (`*.xcodeproj`), which
/// the upward project search loads.
pub fn is_xcode_package(path: &str) -> (b: bool)
    ensures
        b == (path_extension(path@) == Some("xcodeproj"@)),
{
    match extension(path) {
        Some(e) => str_eq(e.as_str(), "xcodeproj"),
        None => false,
    }
}

} // verus!
