//! @interface ↔ @implementation navigation.
//!
//! Resolves the "counterpart" of a header or implementation file
//! (Xcode's "Open Counterpart").

use vstd::prelude::*;

use crate::paths::{
    existence_answers, extension, file_stem, first_existing, first_present, joined, parent_of, path_extension, path_file_name,
    path_join, path_parent, path_stem, path_with_extension, with_ext, file_name_of,
};
use crate::text::{has_char, str_eq};

verus! {

/// The extensions to look for, given the extension of the file.
pub open spec fn counterpart_exts(ext: Seq<char>) -> Seq<Seq<char>> {
    if ext == "h"@ {
        seq!["m"@, "mm"@, "c"@, "cpp"@]
    } else if ext == "m"@ || ext == "mm"@ || ext == "c"@ || ext == "cpp"@ {
        seq!["h"@]
    } else {
        seq![]
    }
}

/// The sibling directory in which headers or sources also live.
pub open spec fn sibling_dir(name: Seq<char>) -> Option<Seq<char>> {
    if name == "include"@ || name == "Include"@ || name == "Headers"@ {
        Some("src"@)
    } else if name == "src"@ || name == "Src"@ || name == "Sources"@ {
        Some("include"@)
    } else {
        None
    }
}

/// `base/stem` with each extension of `exts`.
pub open spec fn with_each_ext(base: Seq<char>, stem: Seq<char>, exts: Seq<Seq<char>>) -> Seq<
    Seq<char>,
> {
    exts.map_values(|t: Seq<char>| with_ext(joined(base, stem), t))
}

/// The paths at which the counterpart of `file` may lie, in the order in
/// which they are tried: the same directory first, then the sibling
/// `include/` ↔ `src/` directory.
pub open spec fn counterpart_candidates(file: Seq<char>) -> Seq<Seq<char>> {
    match (path_extension(file), path_stem(file), parent_of(file)) {
        (Some(e), Some(stem), Some(dir)) => {
            let exts = counterpart_exts(e);
            let same = with_each_ext(dir, stem, exts);
            let sib = match (parent_of(dir), file_name_of(dir)) {
                (Some(pp), Some(dn)) => match sibling_dir(dn) {
                    Some(sd) => with_each_ext(joined(pp, sd), stem, exts),
                    None => seq![],
                },
                _ => seq![],
            };
            if exts.len() == 0 {
                seq![]
            } else {
                same + sib
            }
        },
        _ => seq![],
    }
}

/// An extension without a path separator.
pub open spec fn plain_ext(t: Seq<char>) -> bool {
    !has_char(t, '/') && !has_char(t, '\\')
}

fn counterpart_exts_exec(ext: &str) -> (r: Vec<&'static str>)
    ensures
        r@.map_values(|t: &str| t@) == counterpart_exts(ext@),
        forall|i: int| 0 <= i < r.len() ==> plain_ext(#[trigger] r@[i]@),
{
    let mut r: Vec<&'static str> = Vec::new();
    proof {
        reveal_strlit("h");
        reveal_strlit("m");
        reveal_strlit("mm");
        reveal_strlit("c");
        reveal_strlit("cpp");
    }
    if str_eq(ext, "h") {
        r.push("m");
        r.push("mm");
        r.push("c");
        r.push("cpp");
        assert(r@.map_values(|t: &str| t@) =~= seq!["m"@, "mm"@, "c"@, "cpp"@]);
        assert(forall|i: int| 0 <= i < r.len() ==> plain_ext(#[trigger] r@[i]@)) by {
            assert(r@[0]@ == "m"@ && r@[1]@ == "mm"@ && r@[2]@ == "c"@ && r@[3]@ == "cpp"@);
            assert(forall|j: int| 0 <= j < 1 ==> "m"@[j] != '/' && "m"@[j] != '\\');
            assert(forall|j: int| 0 <= j < 2 ==> "mm"@[j] != '/' && "mm"@[j] != '\\');
            assert(forall|j: int| 0 <= j < 1 ==> "c"@[j] != '/' && "c"@[j] != '\\');
            assert(forall|j: int| 0 <= j < 3 ==> "cpp"@[j] != '/' && "cpp"@[j] != '\\');
        }
    } else if str_eq(ext, "m") || str_eq(ext, "mm") || str_eq(ext, "c") || str_eq(ext, "cpp") {
        r.push("h");
        assert(r@.map_values(|t: &str| t@) =~= seq!["h"@]);
        assert(r@[0]@ == "h"@);
        assert(forall|j: int| 0 <= j < 1 ==> "h"@[j] != '/' && "h"@[j] != '\\');
    } else {
        assert(r@.map_values(|t: &str| t@) =~= Seq::<Seq<char>>::empty());
    }
    r
}

fn sibling_dir_exec(name: &str) -> (r: Option<&'static str>)
    ensures
        match r {
            Some(s) => sibling_dir(name@) == Some(s@),
            None => sibling_dir(name@) is None,
        },
{
    if str_eq(name, "include") || str_eq(name, "Include") || str_eq(name, "Headers") {
        Some("src")
    } else if str_eq(name, "src") || str_eq(name, "Src") || str_eq(name, "Sources") {
        Some("include")
    } else {
        None
    }
}

fn push_with_each_ext(out: &mut Vec<String>, base: &str, stem: &str, exts: &Vec<&'static str>)
    requires
        forall|i: int| 0 <= i < exts.len() ==> plain_ext(#[trigger] exts@[i]@),
    ensures
        final(out)@.map_values(|p: String| p@) == old(out)@.map_values(|p: String| p@)
            + with_each_ext(base@, stem@, exts@.map_values(|t: &str| t@)),
{
    let ghost start = out@.map_values(|p: String| p@);
    let joined_path = path_join(base, stem);
    let mut i: usize = 0;
    while i < exts.len()
        invariant
            i <= exts.len(),
            forall|k: int| 0 <= k < exts.len() ==> plain_ext(#[trigger] exts@[k]@),
            joined_path@ == joined(base@, stem@),
            out@.map_values(|p: String| p@) == start + with_each_ext(
                base@,
                stem@,
                exts@.map_values(|t: &str| t@),
            ).take(i as int),
        decreases exts.len() - i,
    {
        assert(plain_ext(exts@[i as int]@));
        let c = path_with_extension(joined_path.as_str(), exts[i]);
        let ghost before = out@;
        out.push(c);
        assert(out@.map_values(|p: String| p@) =~= before.map_values(|p: String| p@).push(c@));
        assert(with_each_ext(base@, stem@, exts@.map_values(|t: &str| t@)).take(i + 1)
            =~= with_each_ext(base@, stem@, exts@.map_values(|t: &str| t@)).take(i as int).push(
            c@,
        ));
        i = i + 1;
    }
    assert(with_each_ext(base@, stem@, exts@.map_values(|t: &str| t@)).take(i as int)
        =~= with_each_ext(base@, stem@, exts@.map_values(|t: &str| t@)));
}

/// The candidate counterpart paths of `file`, in the order they are tried.
pub fn counterpart_paths(file: &str) -> (r: Vec<String>)
    ensures
        r@.map_values(|p: String| p@) == counterpart_candidates(file@),
{
    let mut r: Vec<String> = Vec::new();
    let ext = extension(file);
    let stem = file_stem(file);
    let dir = path_parent(file);
    match (ext, stem, dir) {
        (Some(e), Some(stem), Some(dir)) => {
            let exts = counterpart_exts_exec(e.as_str());
            if exts.len() == 0 {
                assert(r@.map_values(|p: String| p@) =~= Seq::<Seq<char>>::empty());
                return r;
            }
            push_with_each_ext(&mut r, dir.as_str(), stem.as_str(), &exts);
            let ghost same = r@.map_values(|p: String| p@);
            match (path_parent(dir.as_str()), path_file_name(dir.as_str())) {
                (Some(pp), Some(dn)) => match sibling_dir_exec(dn.as_str()) {
                    Some(sd) => {
                        let sib_base = path_join(pp.as_str(), sd);
                        push_with_each_ext(&mut r, sib_base.as_str(), stem.as_str(), &exts);
                    },
                    None => {
                        assert(same + Seq::<Seq<char>>::empty() =~= same);
                    },
                },
                _ => {
                    assert(same + Seq::<Seq<char>>::empty() =~= same);
                },
            }
            assert(Seq::<Seq<char>>::empty() + same =~= same);
            r
        },
        _ => {
            assert(r@.map_values(|p: String| p@) =~= Seq::<Seq<char>>::empty());
            r
        },
    }
}

/// The counterpart of `file` given the existence answers of its
/// candidates (see `counterpart_candidates`), in order: the first
/// candidate that exists, or `None` when none does.
pub fn counterpart_given(file: &str, answers: &Vec<bool>) -> (r: Option<String>)
    requires
        answers.len() == counterpart_candidates(file@).len(),
    ensures
        match r {
            Some(c) => first_present(counterpart_candidates(file@), answers@) == Some(c@),
            None => first_present(counterpart_candidates(file@), answers@) is None,
        },
{
    let cands = counterpart_paths(file);
    first_existing(&cands, answers)
}

/// Find the counterpart of a `.h` or `.m` / `.mm` file: the first
/// candidate path (see `counterpart_candidates`) that exists on disk.
pub fn find_counterpart(file: &str) -> (r: Option<String>)
    ensures
        exists|answers: Seq<bool>|
            answers.len() == counterpart_candidates(file@).len() && match r {
                Some(c) => #[trigger] first_present(counterpart_candidates(file@), answers) == Some(c@),
                None => first_present(counterpart_candidates(file@), answers) is None,
            },
{
    let cands = counterpart_paths(file);
    let answers = existence_answers(&cands);
    counterpart_given(file, &answers)
}

/// Return `true` if `file` is a header (`.h`).
pub fn is_header(file: &str) -> (b: bool)
    ensures
        b == (path_extension(file@) == Some("h"@)),
{
    match extension(file) {
        Some(e) => str_eq(e.as_str(), "h"),
        None => false,
    }
}

/// Return `true` if `file` is an implementation file (`.m` or `.mm`).
pub fn is_implementation(file: &str) -> (b: bool)
    ensures
        b == (path_extension(file@) == Some("m"@) || path_extension(file@) == Some("mm"@)),
{
    match extension(file) {
        Some(e) => str_eq(e.as_str(), "m") || str_eq(e.as_str(), "mm"),
        None => false,
    }
}

} // verus!
