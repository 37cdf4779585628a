//! Apple SDK, GNUstep and CocoaPods include-path discovery.
//!
//! Running `xcrun` / `gnustep-config`, reading the environment and listing
//! directories is left to the caller, which hands in what it found; the
//! decisions of which flags to pass to clang are made here.

use vstd::prelude::*;

use crate::paths::{existence_answers, first_existing, first_present, joined, path_exists, path_join};
use crate::text::{
    append_str, append_string, chars_of, contains, ends_with, extend_strings, first_of,
    lemma_first_of, line_spans, lines, push_string, range_ends_with, range_find_char,
    range_starts_with, split_whitespace, starts_with, str_contains, str_eq, string_of,
    to_owned_string, trim, trim_range, trim_string, views, words,
};

verus! {

/// Detected SDK environment.
#[derive(Debug, Clone)]
pub struct SdkInfo {
    /// Path to the SDK root.
    pub sdk_root: String,
    /// Compiler flags that should be prepended to every translation unit.
    pub flags: Vec<String>,
}

/// The macOS SDK found at the path that `xcrun --sdk macosx
/// --show-sdk-path` printed (`None` when it could not be run or failed).
pub fn find_macos_sdk(xcrun_output: Option<&str>) -> (r: Option<SdkInfo>)
    ensures
        match xcrun_output {
            None => r is None,
            Some(out) => r is Some && r->0.sdk_root@ == trim(out@) && views(r->0.flags@) == seq![
                "-isysroot"@,
                trim(out@),
                "-ferror-limit=0"@,
            ],
        },
{
    match xcrun_output {
        None => None,
        Some(out) => {
            let root = trim_string(out);
            let mut flags: Vec<String> = Vec::new();
            push_string(&mut flags, to_owned_string("-isysroot"));
            push_string(&mut flags, root.clone());
            push_string(&mut flags, to_owned_string("-ferror-limit=0"));
            assert(views(flags@) =~= seq!["-isysroot"@, trim(out@), "-ferror-limit=0"@]);
            Some(SdkInfo { sdk_root: root, flags })
        },
    }
}

/// The iPhone Simulator SDK found at the path that `xcrun --sdk
/// iphonesimulator --show-sdk-path` printed (`None` when it could not be
/// run or failed).
pub fn find_ios_simulator_sdk(xcrun_output: Option<&str>) -> (r: Option<SdkInfo>)
    ensures
        match xcrun_output {
            None => r is None,
            Some(out) => r is Some && r->0.sdk_root@ == trim(out@) && views(r->0.flags@) == seq![
                "-isysroot"@,
                trim(out@),
                "-arch"@,
                "arm64"@,
                "-Wno-unknown-pragmas"@,
                "-Wno-error"@,
                "-ferror-limit=0"@,
            ],
        },
{
    match xcrun_output {
        None => None,
        Some(out) => {
            let root = trim_string(out);
            let mut flags: Vec<String> = Vec::new();
            push_string(&mut flags, to_owned_string("-isysroot"));
            push_string(&mut flags, root.clone());
            push_string(&mut flags, to_owned_string("-arch"));
            push_string(&mut flags, to_owned_string("arm64"));
            push_string(&mut flags, to_owned_string("-Wno-unknown-pragmas"));
            push_string(&mut flags, to_owned_string("-Wno-error"));
            push_string(&mut flags, to_owned_string("-ferror-limit=0"));
            assert(views(flags@) =~= seq![
                "-isysroot"@,
                trim(out@),
                "-arch"@,
                "arm64"@,
                "-Wno-unknown-pragmas"@,
                "-Wno-error"@,
                "-ferror-limit=0"@,
            ]);
            Some(SdkInfo { sdk_root: root, flags })
        },
    }
}

/// The Xcode toolchain paths tried for clang's resource directory.
pub open spec fn xcode_resource_dirs() -> Seq<Seq<char>> {
    seq![
        "/Applications/Xcode.app/Contents/Developer/Toolchains/XcodeDefault.xctoolchain/usr/lib/clang/17.0.0"@,
        "/Applications/Xcode.app/Contents/Developer/Toolchains/XcodeDefault.xctoolchain/usr/lib/clang/17"@,
    ]
}

/// The clang resource directory, given what `xcrun clang
/// --print-resource-dir` printed, whether its trimmed output exists on
/// disk, and the existence answers of the Xcode toolchain paths: that
/// output when it is not empty and exists, else the first Xcode path that
/// exists.
pub open spec fn resource_dir_choice(
    xcrun_output: Option<Seq<char>>,
    output_exists: bool,
    xcode_present: Seq<bool>,
) -> Option<Seq<char>> {
    match xcrun_output {
        Some(out) if trim(out).len() > 0 && output_exists => Some(trim(out)),
        _ => first_present(xcode_resource_dirs(), xcode_present),
    }
}

pub open spec fn opt_str_view(s: Option<&str>) -> Option<Seq<char>> {
    match s {
        Some(t) => Some(t@),
        None => None,
    }
}

fn xcode_resource_paths() -> (r: Vec<String>)
    ensures
        views(r@) == xcode_resource_dirs(),
{
    let mut r: Vec<String> = Vec::new();
    r.push(to_owned_string("/Applications/Xcode.app/Contents/Developer/Toolchains/XcodeDefault.xctoolchain/usr/lib/clang/17.0.0"));
    r.push(to_owned_string("/Applications/Xcode.app/Contents/Developer/Toolchains/XcodeDefault.xctoolchain/usr/lib/clang/17"));
    assert(views(r@) =~= xcode_resource_dirs());
    r
}

/// The clang resource directory for the given answers (see
/// `resource_dir_choice`).
pub fn choose_resource_dir(xcrun_output: Option<&str>, output_exists: bool, xcode_present: &Vec<bool>) -> (r:
    Option<String>)
    requires
        xcode_present.len() == 2,
    ensures
        match r {
            Some(d) => resource_dir_choice(opt_str_view(xcrun_output), output_exists, xcode_present@) == Some(d@),
            None => resource_dir_choice(opt_str_view(xcrun_output), output_exists, xcode_present@) is None,
        },
{
    if let Some(out) = xcrun_output {
        let path = trim_string(out);
        if !path.as_str().is_empty() && output_exists {
            return Some(path);
        }
    }
    let cands = xcode_resource_paths();
    first_existing(&cands, xcode_present)
}

/// The clang resource directory (`-resource-dir`): what `xcrun clang
/// --print-resource-dir` printed, when not empty and present on disk, or
/// else the first well-known Xcode toolchain path that exists.
pub fn find_clang_resource_dir(xcrun_output: Option<&str>) -> (r: Option<String>)
    ensures
        exists|output_exists: bool, xcode_present: Seq<bool>|
            xcode_present.len() == 2 && match r {
                Some(d) => #[trigger] resource_dir_choice(opt_str_view(xcrun_output), output_exists, xcode_present)
                    == Some(d@),
                None => resource_dir_choice(opt_str_view(xcrun_output), output_exists, xcode_present) is None,
            },
{
    let output_exists = match xcrun_output {
        Some(out) => {
            let path = trim_string(out);
            !path.as_str().is_empty() && path_exists(path.as_str())
        },
        None => false,
    };
    let cands = xcode_resource_paths();
    let answers = existence_answers(&cands);
    let r = choose_resource_dir(xcrun_output, output_exists, &answers);
    assert(match r {
        Some(d) => resource_dir_choice(opt_str_view(xcrun_output), output_exists, answers@) == Some(d@),
        None => resource_dir_choice(opt_str_view(xcrun_output), output_exists, answers@) is None,
    });
    r
}

/// The header directories tried under a GNUstep root, in order:
/// `Headers`, `Library/Headers`, the root itself and
/// `Library/Headers/GNUstepBase`.
pub open spec fn gnustep_dirs(root: Seq<char>) -> Seq<Seq<char>> {
    seq![
        joined(root, "Headers"@),
        joined(joined(root, "Library"@), "Headers"@),
        root,
        joined(joined(joined(root, "Library"@), "Headers"@), "GNUstepBase"@),
    ]
}

/// `-I <dir>` for each directory whose flag in `present` is set.
pub open spec fn include_flags(dirs: Seq<Seq<char>>, present: Seq<bool>) -> Seq<Seq<char>>
    decreases dirs.len(),
{
    if dirs.len() == 0 || present.len() == 0 {
        seq![]
    } else {
        include_flags(dirs.drop_last(), present.drop_last()) + if present.last() {
            seq!["-I"@, dirs.last()]
        } else {
            seq![]
        }
    }
}

proof fn lemma_include_flags_step(dirs: Seq<Seq<char>>, present: Seq<bool>, k: int)
    requires
        0 <= k < dirs.len(),
        k < present.len(),
    ensures
        include_flags(dirs.take(k + 1), present.take(k + 1)) == include_flags(
            dirs.take(k),
            present.take(k),
        ) + if present[k] {
            seq!["-I"@, dirs[k]]
        } else {
            seq![]
        },
{
    assert(dirs.take(k + 1).drop_last() =~= dirs.take(k));
    assert(present.take(k + 1).drop_last() =~= present.take(k));
}

/// The include flags of a GNUstep root, given which of its header
/// directories exist; `None` when none does.
pub open spec fn gnustep_flags_for(root: Seq<char>, present: Seq<bool>) -> Option<Seq<Seq<char>>> {
    let f = include_flags(gnustep_dirs(root), present);
    if f.len() == 0 {
        None
    } else {
        Some(f)
    }
}

pub open spec fn opt_views(r: Option<Vec<String>>) -> Option<Seq<Seq<char>>> {
    match r {
        Some(f) => Some(views(f@)),
        None => None,
    }
}

/// The header directories of a GNUstep root (see `gnustep_dirs`).
fn gnustep_dir_paths(root: &str) -> (r: Vec<String>)
    ensures
        views(r@) == gnustep_dirs(root@),
{
    let headers = path_join(root, "Headers");
    let library = path_join(root, "Library");
    let lib_headers = path_join(library.as_str(), "Headers");
    let base = path_join(lib_headers.as_str(), "GNUstepBase");
    let mut r: Vec<String> = Vec::new();
    r.push(headers);
    r.push(lib_headers);
    r.push(to_owned_string(root));
    r.push(base);
    assert(views(r@) =~= gnustep_dirs(root@));
    r
}

/// The include flags of a GNUstep root, given which of its four header
/// directories (see `gnustep_dirs`) exist: one `-I` pair for each that
/// does, `None` when none does.
pub fn gnustep_flags_from(root: &str, present: &Vec<bool>) -> (r: Option<Vec<String>>)
    requires
        present.len() == 4,
    ensures
        opt_views(r) == gnustep_flags_for(root@, present@),
{
    let dirs = gnustep_dir_paths(root);
    let ghost ds = gnustep_dirs(root@);
    assert(ds.len() == 4);
    let mut flags: Vec<String> = Vec::new();
    let mut k: usize = 0;
    assert(ds.take(0).len() == 0);
    assert(views(flags@) =~= include_flags(ds.take(0), present@.take(0)));
    while k < 4
        invariant
            k <= 4,
            present.len() == 4,
            views(dirs@) == ds,
            dirs.len() == 4,
            ds == gnustep_dirs(root@),
            views(flags@) == include_flags(ds.take(k as int), present@.take(k as int)),
        decreases 4 - k,
    {
        proof {
            lemma_include_flags_step(ds, present@, k as int);
        }
        let ghost before = views(flags@);
        assert(views(dirs@)[k as int] == dirs@[k as int]@);
        if present[k] {
            push_string(&mut flags, to_owned_string("-I"));
            push_string(&mut flags, dirs[k].clone());
            assert(views(flags@) =~= before + seq!["-I"@, ds[k as int]]);
        } else {
            assert(before + Seq::<Seq<char>>::empty() =~= before);
        }
        k = k + 1;
    }
    assert(ds.take(4) =~= ds);
    assert(present@.take(4) =~= present@);
    if flags.len() == 0 {
        None
    } else {
        Some(flags)
    }
}

/// Build `-I` include flags for a GNUstep root directory: one pair for
/// each of its header directories (see `gnustep_dirs`) that exists.
pub fn build_gnustep_flags(root: &str) -> (r: Option<Vec<String>>)
    ensures
        exists|present: Seq<bool>|
            present.len() == 4 && opt_views(r) == #[trigger] gnustep_flags_for(root@, present),
{
    let dirs = gnustep_dir_paths(root);
    let present = existence_answers(&dirs);
    gnustep_flags_from(root, &present)
}

/// The well-known GNUstep installation prefixes, in the order tried.
pub open spec fn gnustep_prefixes() -> Seq<Seq<char>> {
    seq![
        "/usr/share/GNUstep"@,
        "/usr/lib/GNUstep"@,
        "/usr/local/share/GNUstep"@,
        "/usr/local/lib/GNUstep"@,
        "/opt/GNUstep/System"@,
        "/GNUstep/System"@,
    ]
}

/// The fallback flags, from prefix `i` on, given which prefixes exist and,
/// for each prefix, which of its header directories exist: the flags of
/// the first prefix that exists and has header directories.
pub open spec fn fallback_from(prefix_present: Seq<bool>, dir_present: Seq<Seq<bool>>, i: nat) -> Option<
    Seq<Seq<char>>,
>
    decreases 6 - i,
{
    if i >= 6 {
        None
    } else if prefix_present[i as int] && gnustep_flags_for(gnustep_prefixes()[i as int], dir_present[i as int]) is Some {
        gnustep_flags_for(gnustep_prefixes()[i as int], dir_present[i as int])
    } else {
        fallback_from(prefix_present, dir_present, i + 1)
    }
}

pub open spec fn answer_rows(rows: Seq<Vec<bool>>) -> Seq<Seq<bool>> {
    rows.map_values(|d: Vec<bool>| d@)
}

/// The existence answers a fallback search needs: six for the prefixes,
/// four for each prefix's header directories.
pub open spec fn fallback_answers_ok(prefix_present: Seq<bool>, dir_present: Seq<Seq<bool>>) -> bool {
    prefix_present.len() == 6 && dir_present.len() == 6 && forall|i: int|
        0 <= i < 6 ==> (#[trigger] dir_present[i]).len() == 4
}

fn gnustep_prefix_paths() -> (r: Vec<String>)
    ensures
        views(r@) == gnustep_prefixes(),
{
    let mut r: Vec<String> = Vec::new();
    r.push(to_owned_string("/usr/share/GNUstep"));
    r.push(to_owned_string("/usr/lib/GNUstep"));
    r.push(to_owned_string("/usr/local/share/GNUstep"));
    r.push(to_owned_string("/usr/local/lib/GNUstep"));
    r.push(to_owned_string("/opt/GNUstep/System"));
    r.push(to_owned_string("/GNUstep/System"));
    assert(views(r@) =~= gnustep_prefixes());
    r
}

/// The fallback GNUstep flags for the given existence answers (see
/// `fallback_from`).
pub fn gnustep_fallback_from(prefix_present: &Vec<bool>, dir_present: &Vec<Vec<bool>>) -> (r: Option<
    Vec<String>,
>)
    requires
        fallback_answers_ok(prefix_present@, answer_rows(dir_present@)),
    ensures
        opt_views(r) == fallback_from(prefix_present@, answer_rows(dir_present@), 0),
{
    let ghost dp = answer_rows(dir_present@);
    let prefixes = gnustep_prefix_paths();
    assert(gnustep_prefixes().len() == 6);
    let mut i: usize = 0;
    while i < 6
        invariant
            i <= 6,
            prefixes.len() == 6,
            dp == answer_rows(dir_present@),
            fallback_answers_ok(prefix_present@, dp),
            views(prefixes@) == gnustep_prefixes(),
            fallback_from(prefix_present@, dp, 0) == fallback_from(prefix_present@, dp, i as nat),
        decreases 6 - i,
    {
        assert(dp[i as int] == dir_present@[i as int]@);
        assert(dp[i as int].len() == 4);
        assert(views(prefixes@)[i as int] == prefixes@[i as int]@);
        assert(prefixes@[i as int]@ == gnustep_prefixes()[i as int]);
        if prefix_present[i] {
            let flags = gnustep_flags_from(prefixes[i].as_str(), &dir_present[i]);
            if flags.is_some() {
                return flags;
            }
        }
        i = i + 1;
    }
    None
}

/// The flags of the first well-known GNUstep prefix that exists and has
/// header directories.
pub fn gnustep_fallback_flags() -> (r: Option<Vec<String>>)
    ensures
        exists|prefix_present: Seq<bool>, dir_present: Seq<Seq<bool>>|
            fallback_answers_ok(prefix_present, dir_present) && opt_views(r) == #[trigger] fallback_from(
                prefix_present,
                dir_present,
                0,
            ),
{
    let prefixes = gnustep_prefix_paths();
    assert(gnustep_prefixes().len() == 6);
    let prefix_present = existence_answers(&prefixes);
    let mut dir_present: Vec<Vec<bool>> = Vec::new();
    let mut i: usize = 0;
    while i < 6
        invariant
            i <= 6,
            dir_present.len() == i,
            prefixes.len() == 6,
            forall|j: int| 0 <= j < i ==> (#[trigger] dir_present@[j])@.len() == 4,
        decreases 6 - i,
    {
        let dirs = gnustep_dir_paths(prefixes[i].as_str());
        assert(views(dirs@).len() == 4);
        let row = existence_answers(&dirs);
        let ghost before = dir_present@;
        dir_present.push(row);
        assert(forall|j: int| 0 <= j < i ==> dir_present@[j] == before[j]);
        assert(dir_present@[i as int]@.len() == 4);
        i = i + 1;
    }
    let ghost dp = answer_rows(dir_present@);
    assert(fallback_answers_ok(prefix_present@, dp)) by {
        assert forall|j: int| 0 <= j < 6 implies (#[trigger] dp[j]).len() == 4 by {
            assert(dp[j] == dir_present@[j]@);
        }
    }
    gnustep_fallback_from(&prefix_present, &dir_present)
}

/// The GNUstep flags, given the output of `gnustep-config --objc-flags`
/// (`None` when it could not be run, failed or printed invalid UTF-8), the
/// `GNUSTEP_SYSTEM_ROOT` root with the existence answers of its header
/// directories, and the flags of the fallback search: that output split
/// into words, else the flags of that root, else the fallback flags.
pub open spec fn gnustep_choice(
    config_output: Option<Seq<char>>,
    env_root: Option<Seq<char>>,
    env_present: Seq<bool>,
    fallback: Option<Seq<Seq<char>>>,
) -> Option<Seq<Seq<char>>> {
    match config_output {
        Some(out) => Some(words(out)),
        None => match env_root {
            Some(root) if gnustep_flags_for(root, env_present) is Some => gnustep_flags_for(root, env_present),
            _ => fallback,
        },
    }
}

/// GNUstep include flags.  Strategy, in priority order:
/// 1. the output of `gnustep-config --objc-flags` (`None` when it could not
///    be run, failed or printed invalid UTF-8), split into words;
/// 2. the headers under the `GNUSTEP_SYSTEM_ROOT` environment variable;
/// 3. the well-known installation prefixes.
pub fn find_gnustep_flags(config_output: Option<&str>, env_root: Option<&str>) -> (r: Option<
    Vec<String>,
>)
    ensures
        config_output is Some ==> r is Some && views(r->0@) == words(config_output->0@),
        exists|env_present: Seq<bool>, prefix_present: Seq<bool>, dir_present: Seq<Seq<bool>>|
            env_present.len() == 4 && fallback_answers_ok(prefix_present, dir_present) && opt_views(r)
                == #[trigger] gnustep_choice(
                opt_str_view(config_output),
                opt_str_view(env_root),
                env_present,
                fallback_from(prefix_present, dir_present, 0),
            ),
{
    let ghost none4 = seq![false, false, false, false];
    let ghost none6 = seq![false, false, false, false, false, false];
    let ghost rows: Seq<Seq<bool>> = seq![none4, none4, none4, none4, none4, none4];
    assert(fallback_answers_ok(none6, rows));
    if let Some(out) = config_output {
        let r = split_whitespace(out);
        assert(opt_views(Some(r)) == gnustep_choice(
            opt_str_view(config_output),
            opt_str_view(env_root),
            none4,
            fallback_from(none6, rows, 0),
        ));
        return Some(r);
    }
    let ghost mut ep = none4;
    if let Some(root) = env_root {
        let f = build_gnustep_flags(root);
        let ghost w = choose|present: Seq<bool>|
            present.len() == 4 && opt_views(f) == #[trigger] gnustep_flags_for(root@, present);
        proof {
            ep = w;
        }
        if f.is_some() {
            assert(opt_views(f) == gnustep_choice(
                opt_str_view(config_output),
                opt_str_view(env_root),
                ep,
                fallback_from(none6, rows, 0),
            ));
            return f;
        }
    }
    let r = gnustep_fallback_flags();
    let ghost (pp, dp) = choose|prefix_present: Seq<bool>, dir_present: Seq<Seq<bool>>|
        fallback_answers_ok(prefix_present, dir_present) && opt_views(r) == #[trigger] fallback_from(
            prefix_present,
            dir_present,
            0,
        );
    assert(opt_views(r) == gnustep_choice(
        opt_str_view(config_output),
        opt_str_view(env_root),
        ep,
        fallback_from(pp, dp, 0),
    ));
    r
}

/// Best-effort list of include flags: the macOS SDK flags when an SDK was
/// found, otherwise the GNUstep flags, otherwise none.
pub fn default_include_flags(macos_sdk: Option<SdkInfo>, gnustep: Option<Vec<String>>) -> (r: Vec<
    String,
>)
    ensures
        views(r@) == match macos_sdk {
            Some(sdk) => views(sdk.flags@),
            None => match gnustep {
                Some(g) => views(g@),
                None => seq![],
            },
        },
{
    match macos_sdk {
        Some(sdk) => sdk.flags,
        None => match gnustep {
            Some(g) => g,
            None => {
                let r: Vec<String> = Vec::new();
                assert(views(r@) =~= Seq::<Seq<char>>::empty());
                r
            },
        },
    }
}

/// What was found about the environment and the workspace.
pub struct WorkspaceProbe {
    /// Whether the server runs on macOS.
    pub on_macos: bool,
    /// clang's resource directory, if found.
    pub resource_dir: Option<String>,
    /// Whether the workspace is an iOS project (see `detect_ios_project`).
    pub is_ios: bool,
    pub ios_sdk: Option<SdkInfo>,
    pub macos_sdk: Option<SdkInfo>,
    pub gnustep: Option<Vec<String>>,
    /// CocoaPods flags, when there is a workspace root.
    pub pods: Option<Vec<String>>,
    /// The prefix header to inject with `-include`: the converted copy
    /// (see `convert_at_imports`) of the one `select_prefix_header` picked.
    pub prefix_header: Option<String>,
}

pub open spec fn opt_flags(f: Option<Vec<String>>) -> Seq<Seq<char>> {
    match f {
        Some(v) => views(v@),
        None => seq![],
    }
}

pub open spec fn sdk_flags(s: Option<SdkInfo>) -> Seq<Seq<char>> {
    match s {
        Some(i) => views(i.flags@),
        None => seq![],
    }
}

/// The SDK part of the workspace flags.
pub open spec fn platform_flags(p: WorkspaceProbe) -> Seq<Seq<char>> {
    if p.on_macos {
        let res = match p.resource_dir {
            Some(d) => seq!["-resource-dir"@, d@],
            None => seq![],
        };
        let sdk = if p.is_ios {
            if p.ios_sdk is Some {
                sdk_flags(p.ios_sdk)
            } else {
                sdk_flags(p.macos_sdk)
            }
        } else if p.macos_sdk is Some {
            sdk_flags(p.macos_sdk)
        } else {
            opt_flags(p.gnustep)
        };
        res + sdk
    } else {
        opt_flags(p.gnustep)
    }
}

fn extend_opt(flags: &mut Vec<String>, f: &Option<Vec<String>>)
    ensures
        views(final(flags)@) == views(old(flags)@) + opt_flags(*f),
{
    match f {
        Some(v) => extend_strings(flags, v),
        None => {
            assert(views(flags@) + Seq::<Seq<char>>::empty() =~= views(flags@));
        },
    }
}

fn extend_sdk(flags: &mut Vec<String>, s: &Option<SdkInfo>)
    ensures
        views(final(flags)@) == views(old(flags)@) + sdk_flags(*s),
{
    match s {
        Some(i) => extend_strings(flags, &i.flags),
        None => {
            assert(views(flags@) + Seq::<Seq<char>>::empty() =~= views(flags@));
        },
    }
}

/// The prefix-header part of the workspace flags: `-include <path>` on
/// macOS when a prefix header was found, as Xcode injects it into every
/// file.
pub open spec fn prefix_flags(p: WorkspaceProbe) -> Seq<Seq<char>> {
    match p.prefix_header {
        Some(h) if p.on_macos => seq!["-include"@, h@],
        _ => seq![],
    }
}

/// The flags for a workspace: on macOS the clang resource directory, then
/// the iPhone Simulator SDK for iOS projects (macOS SDK as fallback), the
/// macOS SDK, or GNUstep; elsewhere GNUstep; then the CocoaPods headers;
/// then, on macOS, the prefix header.
pub fn workspace_include_flags(probe: &WorkspaceProbe) -> (r: Vec<String>)
    ensures
        views(r@) == platform_flags(*probe) + opt_flags(probe.pods) + prefix_flags(*probe),
{
    let mut flags: Vec<String> = Vec::new();
    if probe.on_macos {
        if let Some(res_dir) = &probe.resource_dir {
            push_string(&mut flags, to_owned_string("-resource-dir"));
            push_string(&mut flags, res_dir.clone());
        }
        let ghost res = views(flags@);
        if probe.is_ios {
            if probe.ios_sdk.is_some() {
                extend_sdk(&mut flags, &probe.ios_sdk);
            } else {
                extend_sdk(&mut flags, &probe.macos_sdk);
            }
        } else if probe.macos_sdk.is_some() {
            extend_sdk(&mut flags, &probe.macos_sdk);
        } else {
            extend_opt(&mut flags, &probe.gnustep);
        }
        assert(res =~= match probe.resource_dir {
            Some(d) => seq!["-resource-dir"@, d@],
            None => Seq::<Seq<char>>::empty(),
        });
    } else {
        extend_opt(&mut flags, &probe.gnustep);
        assert(Seq::<Seq<char>>::empty() + opt_flags(probe.gnustep) =~= opt_flags(probe.gnustep));
    }
    extend_opt(&mut flags, &probe.pods);
    let ghost before = views(flags@);
    if probe.on_macos {
        if let Some(h) = &probe.prefix_header {
            push_string(&mut flags, to_owned_string("-include"));
            push_string(&mut flags, h.clone());
            assert(views(flags@) =~= before + prefix_flags(*probe));
            return flags;
        }
    }
    assert(views(flags@) =~= before + prefix_flags(*probe));
    flags
}

/// A prefix header that brings in UIKit: its text holds `#import <UIKit`
/// or `@import UIKit`.
pub open spec fn imports_uikit(text: Seq<char>) -> bool {
    contains(text, "#import <UIKit"@) || contains(text, "@import UIKit"@)
}

/// Picks the prefix header (`.pch`) to inject, from the `(path, text)`
/// of each one found in the workspace, in the order found: the index of
/// the first that brings in UIKit (see `imports_uikit`).
pub fn select_prefix_header(pchs: &Vec<(String, String)>) -> (r: Option<usize>)
    ensures
        match r {
            Some(i) => i < pchs.len() && imports_uikit(pchs@[i as int].1@) && forall|j: int|
                0 <= j < i ==> !imports_uikit(#[trigger] pchs@[j].1@),
            None => forall|j: int| 0 <= j < pchs.len() ==> !imports_uikit(#[trigger] pchs@[j].1@),
        },
{
    let mut i: usize = 0;
    while i < pchs.len()
        invariant
            i <= pchs.len(),
            forall|j: int| 0 <= j < i ==> !imports_uikit(#[trigger] pchs@[j].1@),
        decreases pchs.len() - i,
    {
        let text = pchs[i].1.as_str();
        if str_contains(text, "#import <UIKit") || str_contains(text, "@import UIKit") {
            return Some(i);
        }
        i = i + 1;
    }
    None
}

/// The module that a trimmed `@import` line names: the text between
/// `@import ` and the final `;`, trimmed, up to its first `.`
/// (`@import UIKit.UIView;` names `UIKit`).
pub open spec fn import_module(t: Seq<char>) -> Seq<char> {
    let inner = trim(t.subrange(8, t.len() - 1));
    inner.take(first_of(inner, '.') as int)
}

/// A line of a prefix header as it is handed to clang: an
/// `@import Foo;` line becomes `#import <Foo/Foo.h>`, which needs no
/// modules; any other line stays as it is.
pub open spec fn convert_line(line: Seq<char>) -> Seq<char> {
    let t = trim(line);
    if t.len() >= 9 && starts_with(t, "@import "@) && ends_with(t, ";"@) {
        let m = import_module(t);
        "#import <"@ + m + "/"@ + m + ".h>"@
    } else {
        line
    }
}

/// The converted lines, each ended by a line break.
pub open spec fn converted_lines(ls: Seq<Seq<char>>) -> Seq<char>
    decreases ls.len(),
{
    if ls.len() == 0 {
        seq![]
    } else {
        converted_lines(ls.drop_last()) + convert_line(ls.last()) + "\n"@
    }
}

/// Rewrites the `@import` lines of a prefix header as `#import` lines
/// (see `convert_line`), so that clang reads it as plain source text
/// without modules.
pub fn convert_at_imports(text: &str) -> (r: String)
    ensures
        r@ == converted_lines(lines(text@)),
{
    let v = chars_of(text);
    let spans = line_spans(&v);
    let ghost ls = lines(v@);
    let at_import = chars_of("@import ");
    let semi = chars_of(";");
    let mut out = String::new();
    let mut k: usize = 0;
    while k < spans.len()
        invariant
            v@ == text@,
            ls == lines(v@),
            spans.len() == ls.len(),
            forall|j: int| #![trigger spans@[j]] 0 <= j < spans.len() ==> spans@[j].0 <= spans@[j].1 <= v.len(),
            forall|j: int|
                #![trigger spans@[j]]
                0 <= j < spans.len() ==> v@.subrange(spans@[j].0 as int, spans@[j].1 as int) == ls[j],
            at_import@ == "@import "@,
            semi@ == ";"@,
            k <= spans.len(),
            out@ == converted_lines(ls.take(k as int)),
        decreases spans.len() - k,
    {
        let (a, b) = spans[k];
        let ghost line = ls[k as int];
        assert(v@.subrange(a as int, b as int) == line);
        assert(ls.take(k + 1).drop_last() =~= ls.take(k as int));
        assert(ls.take(k + 1).last() == line);
        let (ta, tb) = trim_range(&v, a, b);
        let ghost t = trim(line);
        if tb - ta >= 9 && range_starts_with(&v, ta, tb, &at_import) && range_ends_with(&v, ta, tb, &semi) {
            let (ia, ib) = trim_range(&v, ta + 8, tb - 1);
            let ghost inner = trim(t.subrange(8, t.len() - 1));
            assert(v@.subrange(ta + 8, tb - 1) =~= t.subrange(8, t.len() - 1));
            let cut: usize = match range_find_char(&v, ia, ib, '.') {
                Some(j) => {
                    proof {
                        lemma_first_of(inner, '.', j as int);
                    }
                    ia + j
                },
                None => {
                    proof {
                        lemma_first_of(inner, '.', inner.len() as int);
                    }
                    ib
                },
            };
            let m = string_of(&v, ia, cut);
            assert(m@ =~= import_module(t));
            append_str(&mut out, "#import <");
            append_string(&mut out, &m);
            append_str(&mut out, "/");
            append_string(&mut out, &m);
            append_str(&mut out, ".h>");
        } else {
            let l = string_of(&v, a, b);
            append_string(&mut out, &l);
        }
        append_str(&mut out, "\n");
        assert(out@ =~= converted_lines(ls.take(k + 1)));
        k = k + 1;
    }
    assert(ls.take(k as int) =~= ls);
    out
}

/// Heuristically decide whether a workspace is an iOS project: the
/// `Podfile` targets iOS or tvOS, a `.podspec` in the root targets iOS, or
/// an Xcode project's `project.pbxproj` mentions an iPhone SDK.
pub open spec fn ios_markers(
    podfile: Option<Seq<char>>,
    podspecs: Seq<Seq<char>>,
    pbxprojs: Seq<Seq<char>>,
) -> bool {
    ||| (podfile matches Some(t) && (crate::text::contains(t, "platform :ios"@)
        || crate::text::contains(t, "platform :tvos"@)))
    ||| exists|i: int|
        0 <= i < podspecs.len() && (crate::text::contains(#[trigger] podspecs[i], ".ios"@)
            || crate::text::contains(podspecs[i], "platform = :ios"@))
    ||| exists|i: int|
        0 <= i < pbxprojs.len() && (crate::text::contains(#[trigger] pbxprojs[i], "iphoneos"@)
            || crate::text::contains(pbxprojs[i], "iphonesimulator"@))
}

/// Decides whether a workspace is an iOS project from the text of its
/// `Podfile` (if readable), of the `.podspec` files in its root and of the
/// `project.pbxproj` of its `.xcodeproj` packages.
pub fn detect_ios_project(podfile: Option<&str>, podspecs: &Vec<String>, pbxprojs: &Vec<String>) -> (b: bool)
    ensures
        b == ios_markers(
            match podfile {
                Some(t) => Some(t@),
                None => None,
            },
            views(podspecs@),
            views(pbxprojs@),
        ),
{
    let ghost pf = match podfile {
        Some(t) => Some(t@),
        None => None::<Seq<char>>,
    };
    if let Some(text) = podfile {
        if crate::text::str_contains(text, "platform :ios") || crate::text::str_contains(
            text,
            "platform :tvos",
        ) {
            return true;
        }
    }
    let mut i: usize = 0;
    while i < podspecs.len()
        invariant
            i <= podspecs.len(),
            forall|j: int|
                0 <= j < i ==> !(crate::text::contains(#[trigger] views(podspecs@)[j], ".ios"@)
                    || crate::text::contains(views(podspecs@)[j], "platform = :ios"@)),
        decreases podspecs.len() - i,
    {
        let t = podspecs[i].as_str();
        assert(views(podspecs@)[i as int] == t@);
        if crate::text::str_contains(t, ".ios") || crate::text::str_contains(t, "platform = :ios") {
            return true;
        }
        i = i + 1;
    }
    let mut j: usize = 0;
    while j < pbxprojs.len()
        invariant
            j <= pbxprojs.len(),
            forall|k: int|
                0 <= k < j ==> !(crate::text::contains(#[trigger] views(pbxprojs@)[k], "iphoneos"@)
                    || crate::text::contains(views(pbxprojs@)[k], "iphonesimulator"@)),
        decreases pbxprojs.len() - j,
    {
        let t = pbxprojs[j].as_str();
        assert(views(pbxprojs@)[j as int] == t@);
        if crate::text::str_contains(t, "iphoneos") || crate::text::str_contains(t, "iphonesimulator") {
            return true;
        }
        j = j + 1;
    }
    false
}

/// What lies under `Pods/` in a workspace.
pub struct PodsLayout {
    /// `Pods/Headers/Public`, if it exists.
    pub public_headers: Option<String>,
    /// The sub-directories of `Pods/Headers/Public`.
    pub public_subdirs: Vec<String>,
    /// `Pods/Headers/Private`, if it exists.
    pub private_headers: Option<String>,
    /// Whether `Pods/` exists.
    pub pods_exists: bool,
    /// The sub-directories of `Pods/`: name and path.
    pub pod_dirs: Vec<(String, String)>,
}

/// `-I <d>` for each directory.
pub open spec fn includes(dirs: Seq<Seq<char>>) -> Seq<Seq<char>>
    decreases dirs.len(),
{
    if dirs.len() == 0 {
        seq![]
    } else {
        includes(dirs.drop_last()) + seq!["-I"@, dirs.last()]
    }
}

/// The `Pods/` sub-directories used as include paths: all but hidden ones
/// and `Headers`.
pub open spec fn pod_include_dirs(dirs: Seq<(String, String)>) -> Seq<Seq<char>>
    decreases dirs.len(),
{
    if dirs.len() == 0 {
        seq![]
    } else {
        let rest = pod_include_dirs(dirs.drop_last());
        let (name, path) = dirs.last();
        if starts_with(name@, "."@) || name@ == "Headers"@ {
            rest
        } else {
            rest.push(path@)
        }
    }
}

/// The CocoaPods include flags of a layout.
pub open spec fn cocoapods_spec(l: PodsLayout) -> Seq<Seq<char>> {
    let public = match l.public_headers {
        Some(p) => seq!["-I"@, p@] + includes(views(l.public_subdirs@)),
        None => seq![],
    };
    let private = match l.private_headers {
        Some(p) => seq!["-I"@, p@],
        None => seq![],
    };
    let pods = if l.pods_exists && l.public_headers is None {
        includes(pod_include_dirs(l.pod_dirs@))
    } else {
        seq![]
    };
    public + private + pods
}

/// Return `-I` flags for CocoaPods headers: `Pods/Headers/Public` and its
/// sub-directories, `Pods/Headers/Private`, and, when there is no public
/// header directory, the top-level pod directories.
pub fn cocoapods_flags(layout: &PodsLayout) -> (r: Vec<String>)
    ensures
        views(r@) == cocoapods_spec(*layout),
{
    let mut flags: Vec<String> = Vec::new();
    if let Some(p) = &layout.public_headers {
        push_string(&mut flags, to_owned_string("-I"));
        push_string(&mut flags, p.clone());
        let mut i: usize = 0;
        while i < layout.public_subdirs.len()
            invariant
                i <= layout.public_subdirs.len(),
                views(flags@) == seq!["-I"@, p@] + includes(views(layout.public_subdirs@).take(i as int)),
            decreases layout.public_subdirs.len() - i,
        {
            push_string(&mut flags, to_owned_string("-I"));
            push_string(&mut flags, layout.public_subdirs[i].clone());
            assert(views(layout.public_subdirs@).take(i + 1).drop_last() =~= views(
                layout.public_subdirs@,
            ).take(i as int));
            i = i + 1;
        }
        assert(views(layout.public_subdirs@).take(i as int) =~= views(layout.public_subdirs@));
    }
    let ghost public = views(flags@);
    if let Some(p) = &layout.private_headers {
        push_string(&mut flags, to_owned_string("-I"));
        push_string(&mut flags, p.clone());
    }
    let ghost private_part = match &layout.private_headers {
        Some(p) => seq!["-I"@, p@],
        None => Seq::<Seq<char>>::empty(),
    };
    assert(views(flags@) =~= public + private_part);
    let ghost before = views(flags@);
    if layout.pods_exists && layout.public_headers.is_none() {
        let mut i: usize = 0;
        while i < layout.pod_dirs.len()
            invariant
                i <= layout.pod_dirs.len(),
                views(flags@) == before + includes(pod_include_dirs(layout.pod_dirs@.take(i as int))),
            decreases layout.pod_dirs.len() - i,
        {
            let (name, path) = &layout.pod_dirs[i];
            assert(layout.pod_dirs@.take(i + 1).drop_last() =~= layout.pod_dirs@.take(i as int));
            let hidden = crate::text::str_starts_with(name.as_str(), ".");
            let headers = str_eq(name.as_str(), "Headers");
            let ghost q = pod_include_dirs(layout.pod_dirs@.take(i as int));
            if !hidden && !headers {
                push_string(&mut flags, to_owned_string("-I"));
                push_string(&mut flags, path.clone());
                assert(pod_include_dirs(layout.pod_dirs@.take(i + 1)) =~= q.push(path@));
                assert(q.push(path@).drop_last() =~= q);
                assert(includes(q.push(path@)) =~= includes(q) + seq!["-I"@, path@]);
            } else {
                assert(pod_include_dirs(layout.pod_dirs@.take(i + 1)) =~= q);
            }
            i = i + 1;
        }
        assert(layout.pod_dirs@.take(i as int) =~= layout.pod_dirs@);
    } else {
        assert(before + Seq::<Seq<char>>::empty() =~= before);
    }
    flags
}

} // verus!
