use objc_lsp::compile_db::{search_compile_db, shell_words_split, CompileCommandsDb, Entry};
use objc_lsp::project::FlagResolver;
use objc_lsp::sdk::{
    build_gnustep_flags, cocoapods_flags, default_include_flags, detect_ios_project,
    choose_resource_dir, convert_at_imports, find_gnustep_flags, find_ios_simulator_sdk,
    find_macos_sdk, gnustep_fallback_from, gnustep_flags_from, select_prefix_header,
    workspace_include_flags, PodsLayout, SdkInfo, WorkspaceProbe,
};
use objc_lsp::xcodeproj::parse_pbxproj;

#[test]
fn split_simple_words() {
    assert_eq!(shell_words_split("clang -o foo bar.m"), ["clang", "-o", "foo", "bar.m"]);
}

#[test]
fn split_single_word() {
    assert_eq!(shell_words_split("clang"), ["clang"]);
}

#[test]
fn split_empty_string() {
    let v: Vec<String> = shell_words_split("");
    assert!(v.is_empty());
}

#[test]
fn double_quotes_protect_spaces() {
    assert_eq!(
        shell_words_split(r#"clang "-DFOO=hello world" -O2"#),
        ["clang", "-DFOO=hello world", "-O2"]
    );
}

#[test]
fn single_quotes_protect_spaces() {
    assert_eq!(
        shell_words_split("cc '-DFOO=hello world' -O0"),
        ["cc", "-DFOO=hello world", "-O0"]
    );
}

#[test]
fn mixed_quoted_and_plain() {
    assert_eq!(
        shell_words_split(r#"a "b c" d 'e f' g"#),
        ["a", "b c", "d", "e f", "g"]
    );
}

#[test]
fn multiple_spaces_between_words() {
    assert_eq!(shell_words_split("a  b   c"), ["a", "b", "c"]);
}

#[test]
fn tabs_between_words() {
    assert_eq!(shell_words_split("a\tb\tc"), ["a", "b", "c"]);
}

#[test]
fn quote_inside_other_quote_is_kept() {
    assert_eq!(shell_words_split(r#"x "it's" 'say "hi"'"#), ["x", "it's", "say \"hi\""]);
    assert_eq!(shell_words_split(r#""""#), Vec::<String>::new());
}

fn entry(file: &str, args: &[&str], command: Option<&str>) -> Entry {
    Entry {
        directory: "/work".to_string(),
        file: file.to_string(),
        arguments: args.iter().map(|a| a.to_string()).collect(),
        command: command.map(|c| c.to_string()),
    }
}

#[test]
fn compile_db_prefers_arguments_then_command() {
    let db = CompileCommandsDb::from_entries(vec![
        entry("/work/a.m", &["clang", "-c"], Some("ignored")),
        entry("/work/b.m", &[], Some("clang -DX=1 b.m")),
        entry("/work/c.m", &[], None),
    ]);
    let a = db.flags_for("/work/a.m").unwrap();
    assert_eq!(a.args, ["clang", "-c"]);
    assert_eq!(a.working_dir, "/work");
    let b = db.flags_for("b.m").unwrap();
    assert_eq!(b.args, ["clang", "-DX=1", "b.m"]);
    assert!(db.flags_for("/work/c.m").is_none());
    assert!(db.flags_for("/other/d.m").is_none());
}

#[test]
fn compile_db_first_matching_entry_wins() {
    let db = CompileCommandsDb::from_entries(vec![
        entry("/x/y.m", &["one"], None),
        entry("/z/y.m", &["two"], None),
    ]);
    assert_eq!(db.flags_for("y.m").unwrap().args, ["one"]);
    assert_eq!(db.flags_for("/z/y.m").unwrap().args, ["two"]);
}

#[test]
fn xcode_project_without_files_maps_none() {
    let p = parse_pbxproj("/p/App.xcodeproj", "// !$*UTF8*$!");
    assert!(p.flags_for("/p/main.m").is_none());
}

const PBXPROJ: &str = "// !$*UTF8*$!
{
\tobjects = {
\t\tA1 /* main.m */ = {isa = PBXFileReference; lastKnownFileType = sourcecode.c.objc; path = main.m; sourceTree = \"<group>\"; };
\t\tA2 /* App.h */ = {isa = PBXFileReference; lastKnownFileType = sourcecode.c.h; path = App.h; sourceTree = \"<group>\"; };
\t\tA3 /* Model.mm */ = {isa = PBXFileReference; path = \"Sources/Model.mm\"; sourceTree = \"<group>\"; };
\t\tC1 /* Debug */ = {
\t\t\tisa = XCBuildConfiguration;
\t\t\tbuildSettings = {
\t\t\t\tGCC_PREPROCESSOR_DEFINITIONS = (
\t\t\t\t\t\"DEBUG=1\",
\t\t\t\t\t\"$(inherited)\",
\t\t\t\t);
\t\t\t\tHEADER_SEARCH_PATHS = \"$(SRCROOT)/include\";
\t\t\t\tOTHER_CFLAGS = \"$(inherited) -DFOO -Wall\";
\t\t\t};
\t\t\tname = Debug;
\t\t};
\t\tC2 /* Release */ = {
\t\t\tisa = XCBuildConfiguration;
\t\t\tbuildSettings = {
\t\t\t\tOTHER_CFLAGS = \"-DFOO\";
\t\t\t};
\t\t\tname = Release;
\t\t};
\t};
}
";

#[test]
fn xcode_project_gives_its_source_files_the_build_settings() {
    let p = parse_pbxproj("/w/App.xcodeproj", PBXPROJ);
    let f = p.flags_for("/w/main.m").unwrap();
    assert_eq!(f.args, ["-DDEBUG=1", "-I/w/include", "-DFOO", "-Wall"]);
    assert_eq!(f.working_dir, "/w");
    assert!(p.flags_for("/w/Sources/Model.mm").unwrap().args.contains(&"-DFOO".to_string()));
    assert!(p.flags_for("/w/App.h").is_none());
}

#[test]
fn build_gnustep_flags_returns_none_for_missing_dir() {
    assert!(build_gnustep_flags("/nonexistent/gnustep/root/xyz123").is_none());
}

#[test]
fn default_include_flags_returns_vec() {
    let flags = default_include_flags(None, None);
    assert!(flags.is_empty());
}

#[test]
fn default_include_flags_prefers_sdk() {
    let sdk = find_macos_sdk(Some("/sdk/MacOSX.sdk\n")).unwrap();
    assert_eq!(sdk.sdk_root, "/sdk/MacOSX.sdk");
    let flags = default_include_flags(Some(sdk), Some(vec!["-Ig".to_string()]));
    assert_eq!(flags, ["-isysroot", "/sdk/MacOSX.sdk", "-ferror-limit=0"]);
    let flags = default_include_flags(None, Some(vec!["-Ig".to_string()]));
    assert_eq!(flags, ["-Ig"]);
    assert!(find_macos_sdk(None).is_none());
}

#[test]
fn ios_simulator_sdk_flags() {
    let sdk = find_ios_simulator_sdk(Some("  /sdk/iPhoneSimulator.sdk  ")).unwrap();
    assert_eq!(
        sdk.flags,
        ["-isysroot", "/sdk/iPhoneSimulator.sdk", "-arch", "arm64", "-Wno-unknown-pragmas", "-Wno-error", "-ferror-limit=0"]
    );
}

#[test]
fn gnustep_config_output_is_split() {
    let f = find_gnustep_flags(Some(" -I/usr/include/GNUstep\n -fobjc-runtime=gnustep-2.0 "), None);
    assert_eq!(f.unwrap(), ["-I/usr/include/GNUstep", "-fobjc-runtime=gnustep-2.0"]);
}

fn sdk(root: &str) -> SdkInfo {
    SdkInfo { sdk_root: root.to_string(), flags: vec!["-isysroot".to_string(), root.to_string()] }
}

#[test]
fn workspace_flags_on_macos_ios_project() {
    let probe = WorkspaceProbe {
        on_macos: true,
        resource_dir: Some("/res".to_string()),
        is_ios: true,
        ios_sdk: Some(sdk("/ios")),
        macos_sdk: Some(sdk("/mac")),
        gnustep: None,
        pods: Some(vec!["-I".to_string(), "/w/Pods/Headers/Public".to_string()]),
        prefix_header: None,
    };
    assert_eq!(
        workspace_include_flags(&probe),
        ["-resource-dir", "/res", "-isysroot", "/ios", "-I", "/w/Pods/Headers/Public"]
    );
    let linux = WorkspaceProbe {
        on_macos: false,
        resource_dir: None,
        is_ios: false,
        ios_sdk: None,
        macos_sdk: None,
        gnustep: Some(vec!["-I/g".to_string()]),
        pods: None,
        prefix_header: Some("/tmp/p.h".to_string()),
    };
    assert_eq!(workspace_include_flags(&linux), ["-I/g"]);
}

#[test]
fn ios_detection_markers() {
    assert!(detect_ios_project(Some("platform :ios, '13.0'"), &vec![], &vec![]));
    assert!(detect_ios_project(None, &vec!["s.ios.deployment_target = '12'".to_string()], &vec![]));
    assert!(detect_ios_project(None, &vec![], &vec!["SDKROOT = iphoneos;".to_string()]));
    assert!(!detect_ios_project(Some("platform :osx"), &vec!["x".to_string()], &vec!["macosx".to_string()]));
}

#[test]
fn cocoapods_layouts() {
    let public = PodsLayout {
        public_headers: Some("/w/Pods/Headers/Public".to_string()),
        public_subdirs: vec!["/w/Pods/Headers/Public/AFNetworking".to_string()],
        private_headers: Some("/w/Pods/Headers/Private".to_string()),
        pods_exists: true,
        pod_dirs: vec![("Alamofire".to_string(), "/w/Pods/Alamofire".to_string())],
    };
    assert_eq!(
        cocoapods_flags(&public),
        [
            "-I",
            "/w/Pods/Headers/Public",
            "-I",
            "/w/Pods/Headers/Public/AFNetworking",
            "-I",
            "/w/Pods/Headers/Private"
        ]
    );
    let flat = PodsLayout {
        public_headers: None,
        public_subdirs: vec![],
        private_headers: None,
        pods_exists: true,
        pod_dirs: vec![
            (".git".to_string(), "/w/Pods/.git".to_string()),
            ("Headers".to_string(), "/w/Pods/Headers".to_string()),
            ("Kit".to_string(), "/w/Pods/Kit".to_string()),
        ],
    };
    assert_eq!(cocoapods_flags(&flat), ["-I", "/w/Pods/Kit"]);
}

#[test]
fn workspace_flags_end_with_the_prefix_header_on_macos() {
    let probe = WorkspaceProbe {
        on_macos: true,
        resource_dir: None,
        is_ios: false,
        ios_sdk: None,
        macos_sdk: Some(sdk("/mac")),
        gnustep: None,
        pods: None,
        prefix_header: Some("/tmp/objc-lsp-headers/prefix_header_src.h".to_string()),
    };
    assert_eq!(
        workspace_include_flags(&probe),
        ["-isysroot", "/mac", "-include", "/tmp/objc-lsp-headers/prefix_header_src.h"]
    );
}

#[test]
fn prefix_header_is_the_first_uikit_pch() {
    let pchs = vec![
        ("/w/A/A.pch".to_string(), "#import <Foundation/Foundation.h>\n".to_string()),
        ("/w/B/B.pch".to_string(), "#ifdef __OBJC__\n#import <UIKit/UIKit.h>\n#endif\n".to_string()),
        ("/w/C/C.pch".to_string(), "@import UIKit;\n".to_string()),
    ];
    assert_eq!(select_prefix_header(&pchs), Some(1));
    assert_eq!(select_prefix_header(&pchs[2..].to_vec()), Some(0));
    assert_eq!(select_prefix_header(&pchs[..1].to_vec()), None);
}

#[test]
fn at_imports_become_plain_imports() {
    assert_eq!(
        convert_at_imports("  @import UIKit;\n@import Foundation.NSString ;\n#import \"x.h\""),
        "#import <UIKit/UIKit.h>\n#import <Foundation/Foundation.h>\n#import \"x.h\"\n"
    );
    assert_eq!(convert_at_imports(""), "");
}

#[test]
fn gnustep_flags_for_each_present_directory() {
    assert_eq!(
        gnustep_flags_from("/g", &vec![true, false, true, true]).unwrap(),
        ["-I", "/g/Headers", "-I", "/g", "-I", "/g/Library/Headers/GNUstepBase"]
    );
    assert_eq!(gnustep_flags_from("/g", &vec![false, true, false, false]).unwrap(), ["-I", "/g/Library/Headers"]);
    assert!(gnustep_flags_from("/g", &vec![false, false, false, false]).is_none());
}

#[test]
fn gnustep_fallback_takes_the_first_prefix_with_headers() {
    let none = vec![false, false, false, false];
    let rows = vec![
        vec![true, true, true, true],
        none.clone(),
        vec![false, false, true, false],
        vec![true, false, false, false],
        none.clone(),
        none.clone(),
    ];
    // The first prefix is absent; the second exists but has no headers.
    let present = vec![false, true, true, true, false, false];
    assert_eq!(gnustep_fallback_from(&present, &rows).unwrap(), ["-I", "/usr/local/share/GNUstep"]);
    assert!(gnustep_fallback_from(&vec![false; 6], &rows).is_none());
}

#[test]
fn resource_dir_prefers_the_existing_tool_output() {
    assert_eq!(choose_resource_dir(Some(" /clang/res\n"), true, &vec![true, true]).unwrap(), "/clang/res");
    assert_eq!(
        choose_resource_dir(Some(" /clang/res\n"), false, &vec![false, true]).unwrap(),
        "/Applications/Xcode.app/Contents/Developer/Toolchains/XcodeDefault.xctoolchain/usr/lib/clang/17"
    );
    assert!(choose_resource_dir(Some("  "), true, &vec![false, false]).is_none());
    assert!(choose_resource_dir(None, true, &vec![false, false]).is_none());
}

#[test]
fn compile_db_search_walks_upward() {
    assert_eq!(search_compile_db("/a/b", &vec![(true, false)]).unwrap(), "/a/b/compile_commands.json");
    assert_eq!(
        search_compile_db("/a/b", &vec![(false, false), (false, true)]).unwrap(),
        "/a/build/compile_commands.json"
    );
    assert!(search_compile_db("/a/b", &vec![(false, false), (false, false), (false, false)]).is_none());
    assert!(search_compile_db("/a/b", &vec![]).is_none());
}

#[test]
fn xcode_packages_are_named_by_their_extension() {
    assert!(objc_lsp::xcodeproj::is_xcode_package("/w/App.xcodeproj"));
    assert!(!objc_lsp::xcodeproj::is_xcode_package("/w/App.xcworkspace"));
    assert!(!objc_lsp::xcodeproj::is_xcode_package("/w/xcodeproj"));
}
