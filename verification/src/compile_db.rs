//! compile_commands.json flag resolution.
//!
//! Reading the JSON file is done by the caller; this module holds the
//! entries, finds the entry of a file and splits its command line.

use vstd::prelude::*;

use crate::paths::{joined, parent_of, path_exists, path_join, path_parent};
use crate::project::{CompileFlags, FlagResolver};
use crate::text::{chars_of, ends_with, push_char, str_ends_with, to_owned_string};

verus! {

/// The splitter's state: finished words, the word being read, whether a
/// quote is open and which quote character opened it.
pub type SplitState = (Seq<Seq<char>>, Seq<char>, bool, char);

pub open spec fn is_quote(c: char) -> bool {
    c == '"' || c == '\''
}

pub open spec fn is_blank(c: char) -> bool {
    c == ' ' || c == '\t'
}

/// One character of input: an unquoted quote character opens a quote, the
/// same character closes it, an unquoted blank ends the current word, any
/// other character is added to the current word.
pub open spec fn split_step(st: SplitState, c: char) -> SplitState {
    let (words, cur, in_quote, q) = st;
    if is_quote(c) && !in_quote {
        (words, cur, true, c)
    } else if in_quote && c == q {
        (words, cur, false, q)
    } else if is_blank(c) && !in_quote {
        if cur.len() > 0 {
            (words.push(cur), seq![], in_quote, q)
        } else {
            (words, cur, in_quote, q)
        }
    } else {
        (words, cur.push(c), in_quote, q)
    }
}

/// The state after reading all of `s`.
pub open spec fn split_run(s: Seq<char>) -> SplitState
    decreases s.len(),
{
    if s.len() == 0 {
        (seq![], seq![], false, '"')
    } else {
        split_step(split_run(s.drop_last()), s.last())
    }
}

/// The words of a command line, as a minimal shell splitter reads them.
pub open spec fn shell_words(s: Seq<char>) -> Seq<Seq<char>> {
    let (words, cur, _, _) = split_run(s);
    if cur.len() > 0 {
        words.push(cur)
    } else {
        words
    }
}

/// The splitter never yields an empty word.
pub proof fn lemma_shell_words_nonempty(s: Seq<char>)
    ensures
        forall|i: int| 0 <= i < shell_words(s).len() ==> #[trigger] shell_words(s)[i].len() > 0,
{
    lemma_split_run_words_nonempty(s);
}

proof fn lemma_split_run_words_nonempty(s: Seq<char>)
    ensures
        forall|i: int| 0 <= i < split_run(s).0.len() ==> #[trigger] split_run(s).0[i].len() > 0,
    decreases s.len(),
{
    if s.len() > 0 {
        let prev = split_run(s.drop_last());
        lemma_split_run_words_nonempty(s.drop_last());
        assert(split_run(s) == split_step(prev, s.last()));
        assert forall|i: int| 0 <= i < split_run(s).0.len() implies #[trigger] split_run(s).0[i].len() > 0 by {
            if i < prev.0.len() {
                assert(split_run(s).0[i] == prev.0[i]);
            }
        }
    }
}

/// Minimal shell word splitter (handles quoted strings).
pub fn shell_words_split(s: &str) -> (words: Vec<String>)
    ensures
        words@.map_values(|w: String| w@) == shell_words(s@),
{
    let v = chars_of(s);
    let mut words: Vec<String> = Vec::new();
    let mut current = String::new();
    let mut in_quote = false;
    let mut quote_char = '"';
    let mut i: usize = 0;
    while i < v.len()
        invariant
            v@ == s@,
            i <= v.len(),
            split_run(v@.take(i as int)) == (
                words@.map_values(|w: String| w@),
                current@,
                in_quote,
                quote_char,
            ),
        decreases v.len() - i,
    {
        let ch = v[i];
        assert(v@.take(i + 1).drop_last() =~= v@.take(i as int));
        assert(v@.take(i + 1).last() == ch);
        if (ch == '"' || ch == '\'') && !in_quote {
            in_quote = true;
            quote_char = ch;
        } else if in_quote && ch == quote_char {
            in_quote = false;
        } else if (ch == ' ' || ch == '\t') && !in_quote {
            if !current.as_str().is_empty() {
                assert(current@.len() > 0);
                let ghost before = words@;
                let mut w = String::new();
                std::mem::swap(&mut w, &mut current);
                words.push(w);
                assert(words@.map_values(|x: String| x@) =~= before.map_values(|x: String| x@).push(
                    w@,
                ));
            } else {
                assert(current@.len() == 0);
            }
        } else {
            push_char(&mut current, ch);
        }
        i = i + 1;
    }
    assert(v@.take(i as int) =~= v@);
    if !current.as_str().is_empty() {
        let ghost before = words@;
        words.push(current);
        assert(words@.map_values(|x: String| x@) =~= before.map_values(|x: String| x@).push(
            current@,
        ));
    }
    words
}

/// One entry of `compile_commands.json`.
#[derive(Debug, Clone)]
pub struct Entry {
    pub directory: String,
    pub file: String,
    pub arguments: Vec<String>,
    pub command: Option<String>,
}

/// Whether two paths are equal component by component (`Path::eq`).
pub uninterp spec fn same_path(a: Seq<char>, b: Seq<char>) -> bool;

/// `Path::eq`: component-wise path equality.
#[verifier::external_body]
pub(crate) fn paths_equal(a: &str, b: &str) -> (r: bool)
    ensures
        r == same_path(a@, b@),
{
    std::path::Path::new(a) == std::path::Path::new(b)
}

/// The entry describes `file`: same path, or its file text ends with it.
pub open spec fn entry_matches(e: Entry, file: Seq<char>) -> bool {
    same_path(e.file@, file) || ends_with(e.file@, file)
}

/// Index of the first entry that describes `file`.
pub open spec fn first_match(entries: Seq<Entry>, file: Seq<char>) -> Option<int> {
    if exists|i: int| 0 <= i < entries.len() && entry_matches(entries[i], file) && forall|j: int|
        0 <= j < i ==> !entry_matches(#[trigger] entries[j], file) {
        Some(
            choose|i: int|
                0 <= i < entries.len() && entry_matches(entries[i], file) && forall|j: int|
                    0 <= j < i ==> !entry_matches(#[trigger] entries[j], file),
        )
    } else {
        None
    }
}

/// The arguments of an entry: its `arguments` list when not empty,
/// otherwise its split `command`.
pub open spec fn entry_args(e: Entry) -> Option<Seq<Seq<char>>> {
    if e.arguments@.len() > 0 {
        Some(e.arguments@.map_values(|a: String| a@))
    } else {
        match e.command {
            Some(c) => Some(shell_words(c@)),
            None => None,
        }
    }
}

/// Resolves compile flags from the entries of a `compile_commands.json`.
pub struct CompileCommandsDb {
    entries: Vec<Entry>,
}

impl CompileCommandsDb {
    pub closed spec fn entries(&self) -> Seq<Entry> {
        self.entries@
    }

    pub fn from_entries(entries: Vec<Entry>) -> (db: Self)
        ensures
            db.entries() == entries@,
    {
        CompileCommandsDb { entries }
    }

    /// Flags for `file`, from the first entry that describes it.
    pub fn flags_for_file(&self, file: &str) -> (r: Option<CompileFlags>)
        ensures
            match first_match(self.entries(), file@) {
                None => r is None,
                Some(i) => match entry_args(self.entries()[i]) {
                    None => r is None,
                    Some(args) => r is Some && r->0.args@.map_values(|a: String| a@) == args
                        && r->0.working_dir@ == self.entries()[i].directory@,
                },
            },
    {
        let mut i: usize = 0;
        while i < self.entries.len()
            invariant
                i <= self.entries.len(),
                forall|j: int| 0 <= j < i ==> !entry_matches(#[trigger] self.entries@[j], file@),
            decreases self.entries.len() - i,
        {
            let e = &self.entries[i];
            if paths_equal(e.file.as_str(), file) || str_ends_with(e.file.as_str(), file) {
                assert(entry_matches(self.entries@[i as int], file@));
                assert(first_match(self.entries(), file@) == Some(i as int)) by {
                    let k = choose|k: int|
                        0 <= k < self.entries@.len() && entry_matches(self.entries@[k], file@)
                            && forall|j: int|
                            0 <= j < k ==> !entry_matches(#[trigger] self.entries@[j], file@);
                    assert(!(k < i));
                    assert(!(i < k));
                }
                let args = if e.arguments.len() > 0 {
                    e.arguments.clone()
                } else {
                    match &e.command {
                        Some(cmd) => shell_words_split(cmd.as_str()),
                        None => {
                            return None;
                        },
                    }
                };
                proof {
                    if e.arguments.len() > 0 {
                        assert(args@ == e.arguments@);
                    }
                }
                return Some(CompileFlags { args, working_dir: e.directory.clone() });
            }
            i = i + 1;
        }
        assert(first_match(self.entries(), file@) is None) by {
            if exists|k: int|
                0 <= k < self.entries@.len() && entry_matches(self.entries@[k], file@) && forall|
                    j: int,
                | 0 <= j < k ==> !entry_matches(#[trigger] self.entries@[j], file@) {
                let k = choose|k: int|
                    0 <= k < self.entries@.len() && entry_matches(self.entries@[k], file@)
                        && forall|j: int|
                        0 <= j < k ==> !entry_matches(#[trigger] self.entries@[j], file@);
                assert(!entry_matches(self.entries@[k], file@));
            }
        }
        None
    }
}

impl FlagResolver for CompileCommandsDb {
    /// Flags for `file`, from the first entry that describes it (see
    /// `flags_for_file`).
    fn flags_for(&self, file: &str) -> (r: Option<CompileFlags>)
        ensures
            match first_match(self.entries(), file@) {
                None => r is None,
                Some(i) => match entry_args(self.entries()[i]) {
                    None => r is None,
                    Some(args) => r is Some && r->0.args@.map_values(|a: String| a@) == args
                        && r->0.working_dir@ == self.entries()[i].directory@,
                },
            },
    {
        self.flags_for_file(file)
    }
}

/// `Path::is_file`: whether a regular file lies at `p`.  The answer
/// depends on the file system, so nothing is stated of it.
#[verifier::external_body]
pub(crate) fn path_is_file(p: &str) -> bool {
    std::path::Path::new(p).is_file()
}

/// The places where a `compile_commands.json` is looked for in `dir`:
/// `dir/compile_commands.json`, then `dir/build/compile_commands.json`.
pub open spec fn db_candidates(dir: Seq<char>) -> Seq<Seq<char>> {
    seq![
        joined(dir, "compile_commands.json"@),
        joined(joined(dir, "build"@), "compile_commands.json"@),
    ]
}

/// The first `compile_commands.json` met searching upward from `dir`,
/// given, for each directory visited in turn (`dir`, its parent, its
/// parent's parent, ...), whether its two candidates (see
/// `db_candidates`) exist.  The search ends at the first that exists, at a
/// directory without a parent, or when the answers run out.
pub open spec fn db_search(dir: Seq<char>, answers: Seq<(bool, bool)>) -> Option<Seq<char>>
    decreases answers.len(),
{
    if answers.len() == 0 {
        None
    } else if answers[0].0 {
        Some(db_candidates(dir)[0])
    } else if answers[0].1 {
        Some(db_candidates(dir)[1])
    } else {
        match parent_of(dir) {
            Some(p) => db_search(p, answers.drop_first()),
            None => None,
        }
    }
}

/// The search of `find_compile_db`: upward from `start`, or from its
/// directory when `start` is a file (`start_is_file`).
pub open spec fn db_lookup(start: Seq<char>, start_is_file: bool, answers: Seq<(bool, bool)>) -> Option<
    Seq<char>,
> {
    if start_is_file {
        match parent_of(start) {
            Some(d) => db_search(d, answers),
            None => None,
        }
    } else {
        db_search(start, answers)
    }
}

/// The compile database found upward from `dir` for the given existence
/// answers (see `db_search`).
pub fn search_compile_db(dir: &str, answers: &Vec<(bool, bool)>) -> (r: Option<String>)
    ensures
        match r {
            Some(p) => db_search(dir@, answers@) == Some(p@),
            None => db_search(dir@, answers@) is None,
        },
{
    let mut d = to_owned_string(dir);
    let mut i: usize = 0;
    assert(answers@.skip(0) =~= answers@);
    while i < answers.len()
        invariant
            i <= answers.len(),
            db_search(dir@, answers@) == db_search(d@, answers@.skip(i as int)),
        decreases answers.len() - i,
    {
        let ghost rest = answers@.skip(i as int);
        assert(rest[0] == answers@[i as int]);
        assert(rest.drop_first() =~= answers@.skip(i + 1));
        let (here, in_build) = answers[i];
        if here {
            let c = path_join(d.as_str(), "compile_commands.json");
            assert(db_candidates(d@)[0] == c@);
            return Some(c);
        }
        if in_build {
            let build = path_join(d.as_str(), "build");
            let c = path_join(build.as_str(), "compile_commands.json");
            assert(db_candidates(d@)[1] == c@);
            return Some(c);
        }
        match path_parent(d.as_str()) {
            Some(p) => {
                d = p;
            },
            None => {
                return None;
            },
        }
        i = i + 1;
    }
    None
}

/// Asks the file system, from `dir` upward, whether each directory's
/// candidates exist, up to the first that does or the top directory.
fn db_answers(dir: &str) -> (r: Vec<(bool, bool)>) {
    let mut r: Vec<(bool, bool)> = Vec::new();
    let mut d = to_owned_string(dir);
    loop
        decreases d@.len(),
    {
        let candidate = path_join(d.as_str(), "compile_commands.json");
        let build = path_join(d.as_str(), "build");
        let build_candidate = path_join(build.as_str(), "compile_commands.json");
        let here = path_exists(candidate.as_str());
        let in_build = !here && path_exists(build_candidate.as_str());
        r.push((here, in_build));
        if here || in_build {
            return r;
        }
        match path_parent(d.as_str()) {
            Some(p) => {
                d = p;
            },
            None => {
                return r;
            },
        }
    }
}

/// Search upward from `start` (or from its directory when `start` is a
/// file) for a `compile_commands.json`: in each directory, from the start
/// upward, `compile_commands.json`, then `build/compile_commands.json`;
/// the first that exists is returned (see `db_lookup`).
pub fn find_compile_db(start: &str) -> (r: Option<String>)
    ensures
        exists|start_is_file: bool, answers: Seq<(bool, bool)>|
            match r {
                Some(p) => #[trigger] db_lookup(start@, start_is_file, answers) == Some(p@),
                None => db_lookup(start@, start_is_file, answers) is None,
            },
{
    let is_file = path_is_file(start);
    if is_file {
        match path_parent(start) {
            Some(dir) => {
                let answers = db_answers(dir.as_str());
                let r = search_compile_db(dir.as_str(), &answers);
                assert(match r {
                    Some(p) => db_lookup(start@, is_file, answers@) == Some(p@),
                    None => db_lookup(start@, is_file, answers@) is None,
                });
                r
            },
            None => {
                assert(db_lookup(start@, is_file, Seq::empty()) is None);
                None
            },
        }
    } else {
        let answers = db_answers(start);
        let r = search_compile_db(start, &answers);
        assert(match r {
            Some(p) => db_lookup(start@, is_file, answers@) == Some(p@),
            None => db_lookup(start@, is_file, answers@) is None,
        });
        r
    }
}

/// What `find_and_load` gives for the path that the search found (`None`
/// when it found none) and what `load` gave for it.
pub open spec fn load_outcome(found: Option<Seq<char>>, loaded: Option<Seq<Entry>>, r: Option<CompileCommandsDb>) -> bool {
    match found {
        None => r is None,
        Some(_) => match loaded {
            None => r is None,
            Some(es) => r matches Some(db) && db.entries() == es,
        },
    }
}

impl CompileCommandsDb {
    /// Search upward from `start` for a `compile_commands.json` (see
    /// `find_compile_db`) and read its entries with `load`: the database of
    /// those entries, `None` when no file was found or `load` gave none.
    pub fn find_and_load<F: Fn(String) -> Option<Vec<Entry>>>(start: &str, load: F) -> (r: Option<Self>)
        requires
            forall|p: String| load.requires((p,)),
        ensures
            exists|start_is_file: bool, answers: Seq<(bool, bool)>|
                match #[trigger] db_lookup(start@, start_is_file, answers) {
                    None => r is None,
                    Some(p) => exists|s: String, res: Option<Vec<Entry>>|
                        s@ == p && #[trigger] load.ensures((s,), res) && load_outcome(
                            Some(p),
                            match res {
                                Some(es) => Some(es@),
                                None => None,
                            },
                            r,
                        ),
                },
    {
        let path = match find_compile_db(start) {
            Some(p) => p,
            None => {
                return None;
            },
        };
        let ghost p = path@;
        let res = load(path);
        let r = match res {
            Some(entries) => {
                let db = CompileCommandsDb::from_entries(entries);
                Some(db)
            },
            None => None,
        };
        assert(load_outcome(
            Some(p),
            match res {
                Some(es) => Some(es@),
                None => None,
            },
            r,
        ));
        r
    }
}

} // verus!
