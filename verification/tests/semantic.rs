use objc_lsp::token_scan::{deepest_referring, first_message_ref, message_around};
use objc_lsp::completion::cx_completion_to_lsp;
use objc_lsp::crash_guard::with_crash_guard;
use objc_lsp::cursor_kinds::{
    cursor_kind_label, cx_cursor_kind_to_completion_kind, cx_diagnostic_to_lsp, is_callable_kind, is_type_kind,
    location_to_range, CompletionItemKind,
};
use objc_lsp::formatting::{choose_clang_format, find_clang_format, format_edits};
use objc_lsp::hierarchy::{cursor_range, cursor_to_call_item, cursor_to_type_item, uri_to_path, CursorFacts};
use objc_lsp::hover_text::{
    build_category_signature, build_interface_signature, build_method_signature, build_property_signature,
    build_protocol_signature, hover_markdown, hover_plan, macro_hover_text, no_definition_hover_text, HoverPlan,
};
use objc_lsp::lsp::{DiagnosticSeverity, Position};
use objc_lsp::rename::{derive_property_replacement, rename_edits, FoundReference};
use objc_lsp::stubs::{compute_missing_stubs, generate_stub_text, stub_of_method, stubs_action, MissingStub};
use objc_lsp::symbols::SymbolKind;
use objc_lsp::token_scan::{
    class_twin, declaration_range, enclosing_bracket, extent_contains, file_uri, identifier_at, message_receiver,
    method_with_prefix, paren_depth, resolved_twin, resolved_twins, spelled_at, ScanToken,
};

use clang_sys::{
    CXCursor_FunctionDecl, CXCursor_ObjCCategoryDecl, CXCursor_ObjCClassMethodDecl, CXCursor_ObjCInstanceMethodDecl,
    CXCursor_ObjCInterfaceDecl, CXCursor_ObjCIvarDecl, CXCursor_ObjCPropertyDecl, CXCursor_ObjCProtocolDecl,
    CXCursor_ObjCProtocolRef, CXCursor_ObjCSuperClassRef, CXCursor_ParmDecl, CXCursor_VarDecl,
};

#[test]
fn test_is_callable_kind() {
    assert!(is_callable_kind(CXCursor_ObjCInstanceMethodDecl));
    assert!(is_callable_kind(CXCursor_ObjCClassMethodDecl));
    assert!(is_callable_kind(CXCursor_FunctionDecl));
    assert!(!is_callable_kind(CXCursor_ObjCInterfaceDecl));
    assert!(!is_callable_kind(CXCursor_VarDecl));
}

#[test]
fn test_is_type_kind() {
    assert!(is_type_kind(CXCursor_ObjCInterfaceDecl));
    assert!(is_type_kind(CXCursor_ObjCProtocolDecl));
    assert!(is_type_kind(CXCursor_ObjCCategoryDecl));
    assert!(!is_type_kind(CXCursor_FunctionDecl));
    assert!(!is_type_kind(CXCursor_VarDecl));
}

#[test]
fn test_find_clang_format() {
    let path = find_clang_format();
    assert!(!path.is_empty());
}

#[test]
fn kind_labels_and_completion_kinds() {
    assert_eq!(cursor_kind_label(CXCursor_ObjCInterfaceDecl), "@interface");
    assert_eq!(cursor_kind_label(CXCursor_ObjCClassMethodDecl), "class method");
    assert_eq!(cursor_kind_label(12345), "symbol");
    assert_eq!(cx_cursor_kind_to_completion_kind(CXCursor_ObjCPropertyDecl), CompletionItemKind::Property);
    assert_eq!(cx_cursor_kind_to_completion_kind(CXCursor_ObjCIvarDecl), CompletionItemKind::Variable);
    assert_eq!(cx_cursor_kind_to_completion_kind(501), CompletionItemKind::Constant);
    assert_eq!(cx_cursor_kind_to_completion_kind(0), CompletionItemKind::Text);
}

#[test]
fn diagnostics_convert_severity_and_position() {
    let d = cx_diagnostic_to_lsp(3, 10, 5, "boom".to_string()).unwrap();
    assert_eq!(d.severity, Some(DiagnosticSeverity::Error));
    assert_eq!(d.range.start, Position { line: 9, character: 4 });
    assert_eq!(d.source.as_deref(), Some("objc-lsp"));
    assert_eq!(cx_diagnostic_to_lsp(1, 0, 0, String::new()).unwrap().severity, Some(DiagnosticSeverity::Hint));
    assert!(cx_diagnostic_to_lsp(0, 1, 1, "ignored".to_string()).is_none());
    let r = location_to_range(0, 0);
    assert_eq!((r.start, r.end), (Position { line: 0, character: 0 }, Position { line: 0, character: 0 }));
}

#[test]
fn signatures_from_cursor_facts() {
    let kids = vec![
        (CXCursor_ObjCSuperClassRef, "UIResponder".to_string()),
        (CXCursor_ObjCProtocolRef, "NSCoding".to_string()),
        (CXCursor_ObjCProtocolRef, String::new()),
        (CXCursor_ObjCProtocolRef, "UIAppearanceContainer".to_string()),
    ];
    assert_eq!(
        build_interface_signature("UIViewController", &kids),
        "@interface UIViewController : UIResponder <NSCoding, UIAppearanceContainer>"
    );
    assert_eq!(build_interface_signature("", &kids), "");
    assert_eq!(build_interface_signature("Plain", &vec![]), "@interface Plain");
    assert_eq!(build_protocol_signature("P", &kids), "@protocol P <NSCoding, UIAppearanceContainer>");
    assert_eq!(build_category_signature("Foo(Bar)"), "@interface Foo(Bar)");
    let params = vec![
        (CXCursor_ParmDecl, "NSString *".to_string(), "nibName".to_string()),
        (0, "ignored".to_string(), "x".to_string()),
        (CXCursor_ParmDecl, "NSBundle *".to_string(), "bundle".to_string()),
    ];
    assert_eq!(
        build_method_signature(CXCursor_ObjCInstanceMethodDecl, Some("instancetype".to_string()), "initWithNibName:bundle:", &params),
        "- (instancetype)initWithNibName:(NSString *)nibName bundle:(NSBundle *)bundle"
    );
    assert_eq!(build_method_signature(CXCursor_ObjCClassMethodDecl, None, "new", &vec![]), "+ (id)new");
    assert_eq!(build_property_signature("name", Some("NSString *".to_string()), 0x20 | 0x4), "@property (nonatomic, copy) NSString * name");
    assert_eq!(build_property_signature("n", None, 0x8 | 0x400), "@property (atomic, readonly, weak) id n");
}

#[test]
fn hover_plans_and_markdown() {
    assert_eq!(hover_plan(73, 0), HoverPlan::Nothing);
    assert_eq!(hover_plan(103, 0), HoverPlan::MacroName);
    assert_eq!(hover_plan(105, 0), HoverPlan::Nothing);
    assert_eq!(hover_plan(18, 18), HoverPlan::Nothing);
    assert_eq!(hover_plan(231, 5), HoverPlan::NoDefinition);
    assert_eq!(hover_plan(16, 18), HoverPlan::Render);
    assert_eq!(macro_hover_text("FOO"), "`FOO` — macro (no definition found)");
    assert_eq!(no_definition_hover_text("bar"), "`bar` — no definition found");
    assert_eq!(
        hover_markdown(CXCursor_ObjCInterfaceDecl, "Foo", "@interface Foo : NSObject", None, "A foo."),
        Some("```objc\n@interface Foo : NSObject\n```\n\nA foo.".to_string())
    );
    assert_eq!(
        hover_markdown(CXCursor_VarDecl, "count", "", Some("int".to_string()), ""),
        Some("**variable** `count`\n\n*Type:* `int`".to_string())
    );
    assert_eq!(hover_markdown(CXCursor_FunctionDecl, "f", "", Some("void".to_string()), ""), Some("**function** `f`".to_string()));
    assert_eq!(hover_markdown(CXCursor_VarDecl, "", "", None, ""), None);
}

fn tok(kind: u32, sp: &str, line: u32, col: u32) -> ScanToken {
    ScanToken { kind, spelling: sp.to_string(), in_file: true, line, col, end_col: col + sp.len() as u32 }
}

fn message_tokens() -> Vec<ScanToken> {
    // [UIBezierPath bezierPathWithRect:CGRectMake(0, 0, w, h)]
    vec![
        tok(0, "[", 3, 10),
        tok(2, "UIBezierPath", 3, 11),
        tok(2, "bezierPathWithRect", 3, 24),
        tok(0, ":", 3, 42),
        tok(2, "CGRectMake", 3, 43),
        tok(0, "(", 3, 53),
        tok(3, "0", 3, 54),
        tok(0, ",", 3, 55),
        tok(2, "w", 3, 57),
        tok(0, ")", 3, 58),
        tok(0, "]", 3, 59),
    ]
}

#[test]
fn token_scan_finds_clicked_token_and_receiver() {
    let toks = message_tokens();
    assert_eq!(identifier_at(&toks, 3, 30, true), Some(2));
    assert_eq!(identifier_at(&toks, 3, 11, false), Some(1));
    assert_eq!(identifier_at(&toks, 4, 30, false), None);
    assert_eq!(spelled_at(&toks, "bezierPathWithRect", 3, 24), Some(2));
    assert_eq!(enclosing_bracket(&toks, 2), Some(0));
    assert_eq!(message_receiver(&toks, 2, true), Some(1));
    assert_eq!(paren_depth(&toks, 0, 8), 1);
    // `w` sits inside CGRectMake(...): not in selector position.
    assert_eq!(message_receiver(&toks, 8, true), None);
    assert_eq!(message_receiver(&toks, 8, false), None);
    assert_eq!(enclosing_bracket(&toks, 0), None);
}

#[test]
fn nested_brackets_are_skipped() {
    // [[Foo alloc] initWithX:1]
    let toks = vec![
        tok(0, "[", 1, 1),
        tok(0, "[", 1, 2),
        tok(2, "Foo", 1, 3),
        tok(2, "alloc", 1, 7),
        tok(0, "]", 1, 12),
        tok(2, "initWithX", 1, 14),
    ];
    assert_eq!(enclosing_bracket(&toks, 5), Some(0));
    assert_eq!(message_receiver(&toks, 5, false), Some(2));
}

#[test]
fn twins_and_methods() {
    let toks = message_tokens();
    assert_eq!(resolved_twin(&toks, "UIBezierPath", &vec![false; 11], None), None);
    let mut resolved = vec![false; 11];
    resolved[1] = true;
    assert_eq!(resolved_twin(&toks, "UIBezierPath", &resolved, None), Some(1));
    assert_eq!(resolved_twin(&toks, "UIBezierPath", &resolved, Some(3)), None);
    let mut refs = vec![None; 11];
    refs[1] = Some(42);
    assert_eq!(class_twin(&toks, "UIBezierPath", &refs), Some(1));
    refs[1] = Some(9);
    assert_eq!(class_twin(&toks, "UIBezierPath", &refs), None);
    let members = vec![
        (14, "bezierPathWithRect".to_string()),
        (17, "bezierPath".to_string()),
        (17, "bezierPathWithRect:".to_string()),
    ];
    assert_eq!(method_with_prefix(&members, "bezierPathWithRect"), Some(2));
    assert_eq!(method_with_prefix(&members, "nothing"), None);
}

#[test]
fn extents_ranges_and_uris() {
    assert!(extent_contains(3, 10, 3, 20, 3, 10));
    assert!(extent_contains(3, 10, 5, 1, 4, 100));
    assert!(!extent_contains(3, 10, 3, 20, 3, 21));
    assert!(!extent_contains(3, 10, 3, 20, 2, 15));
    let r = declaration_range(10, 5, Some((12, 2)));
    assert_eq!((r.start, r.end), (Position { line: 9, character: 4 }, Position { line: 11, character: 1 }));
    let z = declaration_range(10, 5, None);
    assert_eq!(z.start, z.end);
    assert_eq!(file_uri("/a/b.h"), "file:///a/b.h");
    assert_eq!(uri_to_path("file:///a/b.h").as_deref(), Some("/a/b.h"));
    assert_eq!(uri_to_path("untitled:x"), None);
}

#[test]
fn hierarchy_items() {
    let facts = |name: &str, kind: i32, file: Option<&str>| CursorFacts {
        name: name.to_string(),
        kind,
        file: file.map(|f| f.to_string()),
        line: 4,
        col: 3,
        extent_start: (4, 1),
        extent_end: (9, 5),
    };
    let item = cursor_to_call_item(facts("greet", CXCursor_ObjCInstanceMethodDecl, Some("/x/P.m"))).unwrap();
    assert_eq!(item.kind, SymbolKind::Method);
    assert_eq!(item.uri, "file:///x/P.m");
    assert_eq!(item.selection_range.start, Position { line: 3, character: 2 });
    assert_eq!(item.selection_range.end, Position { line: 3, character: 7 });
    assert_eq!(item.range, cursor_range(4, 1, 9, 5));
    assert_eq!(cursor_to_call_item(facts("f", CXCursor_VarDecl, Some("/x"))).unwrap().kind, SymbolKind::Function);
    assert!(cursor_to_call_item(facts("", CXCursor_FunctionDecl, Some("/x"))).is_none());
    assert!(cursor_to_call_item(facts("f", CXCursor_FunctionDecl, None)).is_none());
    assert_eq!(cursor_to_type_item(facts("P", CXCursor_ObjCProtocolDecl, Some("/x"))).unwrap().kind, SymbolKind::Interface);
    assert_eq!(cursor_to_type_item(facts("C", CXCursor_ObjCCategoryDecl, Some("/x"))).unwrap().kind, SymbolKind::Module);
}

#[test]
fn property_rename_replacements() {
    assert_eq!(derive_property_replacement("name", "title", CXCursor_ObjCPropertyDecl, "name"), "title");
    assert_eq!(derive_property_replacement("name", "title", CXCursor_ObjCInstanceMethodDecl, "setName:"), "setTitle:");
    assert_eq!(derive_property_replacement("name", "title", 104, "setName:"), "setTitle:");
    assert_eq!(derive_property_replacement("name", "title", CXCursor_ObjCInstanceMethodDecl, "name"), "title");
    assert_eq!(derive_property_replacement("name", "title", 104, "name"), "title");
    assert_eq!(derive_property_replacement("name", "title", CXCursor_ObjCIvarDecl, "_name"), "_title");
    assert_eq!(derive_property_replacement("name", "title", 102, "name"), "title");
    assert_eq!(derive_property_replacement("name", "title", 9, "name"), "title");
}

#[test]
fn rename_edits_grouped_by_file() {
    let r = |kind: i32, file: Option<&str>, line: u32| FoundReference {
        kind,
        spelling: if kind == CXCursor_ObjCInstanceMethodDecl { "setName:".to_string() } else { "name".to_string() },
        file: file.map(|f| f.to_string()),
        start: (line, 5),
        end: (line, 9),
    };
    let refs = vec![
        r(CXCursor_ObjCPropertyDecl, Some("/a.h"), 3),
        r(CXCursor_ObjCIvarDecl, Some("/a.m"), 7),
        r(CXCursor_ObjCInstanceMethodDecl, Some("/a.h"), 4),
        r(CXCursor_ObjCPropertyDecl, None, 1),
        r(CXCursor_ObjCPropertyDecl, Some(""), 1),
    ];
    let groups = rename_edits(&refs, "name", "title", true);
    assert_eq!(groups.len(), 2);
    assert_eq!(groups[0].uri, "file:///a.h");
    let texts: Vec<&str> = groups[0].edits.iter().map(|e| e.new_text.as_str()).collect();
    assert_eq!(texts, ["title", "setTitle:"]);
    assert_eq!(groups[0].edits[0].range.start, Position { line: 2, character: 4 });
    assert_eq!(groups[1].uri, "file:///a.m");
    assert_eq!(groups[1].edits[0].new_text, "_title");
    let plain = rename_edits(&refs, "name", "title", false);
    assert_eq!(plain[1].edits[0].new_text, "title");
}

#[test]
fn protocol_stub_text_and_action() {
    let stub = stub_of_method(
        CXCursor_ObjCInstanceMethodDecl,
        "tableView:didSelectRowAtIndexPath:".to_string(),
        "void".to_string(),
        &vec!["UITableView *".to_string(), "NSIndexPath *".to_string(), "int".to_string()],
        false,
    )
    .unwrap();
    assert_eq!(stub.params[0], ("tableView".to_string(), "UITableView *".to_string()));
    assert_eq!(stub.params[1].0, "didSelectRowAtIndexPath");
    assert_eq!(stub.params[2].0, "");
    assert!(stub_of_method(CXCursor_VarDecl, "x".to_string(), "int".to_string(), &vec![], false).is_none());
    assert!(stub_of_method(CXCursor_ObjCInstanceMethodDecl, "x".to_string(), "int".to_string(), &vec![], true).is_none());
    let nullary = MissingStub { selector: "greet".to_string(), is_class_method: true, return_type: "void".to_string(), params: vec![] };
    assert_eq!(generate_stub_text(&nullary), "+ (void)greet {\n    // TODO: implement\n}");
    let two = MissingStub {
        selector: "initWithName:age:".to_string(),
        is_class_method: false,
        return_type: "id".to_string(),
        params: vec![("initWithName".to_string(), "NSString *".to_string()), ("age".to_string(), "int".to_string())],
    };
    assert_eq!(
        generate_stub_text(&two),
        "- (id)initWithName:(NSString *)initWithName age:(int)age {\n    // TODO: implement\n}"
    );
    let missing = compute_missing_stubs(
        &vec!["greet".to_string()],
        vec![
            vec![
                MissingStub { selector: "greet".to_string(), is_class_method: false, return_type: "void".to_string(), params: vec![] },
                MissingStub { selector: "wave".to_string(), is_class_method: false, return_type: "void".to_string(), params: vec![] },
            ],
            vec![MissingStub { selector: "run".to_string(), is_class_method: true, return_type: "void".to_string(), params: vec![] }],
        ],
    );
    let sels: Vec<&str> = missing.iter().map(|m| m.selector.as_str()).collect();
    assert_eq!(sels, ["wave", "run"]);
    let action = stubs_action(&missing, 20, "file:///p.m").unwrap();
    assert_eq!(action.title, "Add 2 missing protocol stubs");
    assert!(action.is_preferred);
    assert_eq!(action.edits[0].range.start, Position { line: 18, character: 0 });
    assert_eq!(
        action.edits[0].new_text,
        "- (void)wave {\n    // TODO: implement\n}\n\n+ (void)run {\n    // TODO: implement\n}"
    );
    assert_eq!(stubs_action(&vec![nullary], 1, "u").unwrap().title, "Add 1 missing protocol stub");
    assert!(stubs_action(&vec![], 5, "u").is_none());
}

#[test]
fn completion_items_from_chunks() {
    let chunks = vec![
        (15, "NSString *".to_string()),
        (1, "stringWithFormat:".to_string()),
        (3, "<#NSString *format#>".to_string()),
        (2, ", ".to_string()),
        (3, "<#...#>".to_string()),
        (5, "cur".to_string()),
        (99, "ignored".to_string()),
    ];
    let item = cx_completion_to_lsp(CXCursor_ObjCClassMethodDecl, &chunks, "Makes a string.".to_string()).unwrap();
    assert_eq!(item.label, "stringWithFormat:<#NSString *format#>, <#...#>cur");
    assert_eq!(item.insert_text, "stringWithFormat:${1:NSString *format}, ${2:...}");
    assert_eq!(item.detail.as_deref(), Some("NSString *"));
    assert_eq!(item.documentation.as_deref(), Some("Makes a string."));
    assert_eq!(item.kind, CompletionItemKind::Method);
    assert!(cx_completion_to_lsp(8, &vec![(15, "int".to_string())], String::new()).is_none());
    let bare = cx_completion_to_lsp(8, &vec![(1, "f".to_string())], String::new()).unwrap();
    assert!(bare.detail.is_none() && bare.documentation.is_none());
}

#[test]
fn format_edit_spans_the_whole_document() {
    assert!(format_edits("int x;\n", "int x;\n".to_string()).is_empty());
    let e = format_edits("int  x;\nint y é;\n", "int x;\nint y é;\n".to_string());
    assert_eq!(e.len(), 1);
    assert_eq!(e[0].range.start, Position { line: 0, character: 0 });
    assert_eq!(e[0].range.end, Position { line: 2, character: 0 });
    let empty = format_edits("", "x".to_string());
    assert_eq!(empty[0].range.end, Position { line: 0, character: 0 });
    let open_end = format_edits("a\nb é", "a\nb".to_string());
    assert_eq!(open_end[0].range.end, Position { line: 1, character: 4 });
    let r = format_edits("a\nb\n", "a\n".to_string());
    assert_eq!(r[0].range.end, Position { line: 2, character: 0 });
}

#[test]
fn crash_guard_passes_the_result_through() {
    let r: Result<u32, String> = with_crash_guard(|| Ok(7));
    assert_eq!(r, Ok(7));
    let e: Result<u32, String> = with_crash_guard(|| Err("bad".to_string()));
    assert_eq!(e, Err("bad".to_string()));
}

#[test]
fn every_resolved_twin_in_order() {
    let toks = vec![
        tok(2, "CGRectMake", 1, 5),
        tok(2, "CGRectMake", 2, 5),
        tok(0, "(", 2, 15),
        tok(2, "CGRectMake", 3, 5),
        tok(2, "CGRectMake", 4, 5),
    ];
    let resolved = vec![true, true, true, false, true];
    assert_eq!(resolved_twins(&toks, "CGRectMake", &resolved, None), vec![0, 1, 4]);
    assert_eq!(resolved_twins(&toks, "CGRectMake", &resolved, Some(2)), vec![0, 4]);
    assert!(resolved_twins(&toks, "CGRectZero", &resolved, None).is_empty());
}

#[test]
fn clang_format_choice_follows_the_answers() {
    assert_eq!(choose_clang_format(&vec![false, true, true]), "/usr/local/opt/llvm/bin/clang-format");
    assert_eq!(choose_clang_format(&vec![true, false, false]), "/opt/homebrew/opt/llvm/bin/clang-format");
    assert_eq!(choose_clang_format(&vec![false, false, false]), "clang-format");
}

#[test]
fn fallback_choices_of_goto_definition() {
    assert_eq!(deepest_referring(&vec![(true, true), (false, true), (true, false), (true, true), (true, false)]), Some(3));
    assert_eq!(deepest_referring(&vec![(true, false), (false, true)]), None);
    assert_eq!(message_around(&vec![false, true, true]), Some(1));
    assert_eq!(message_around(&vec![false, false]), Some(0));
    assert_eq!(message_around(&vec![]), None);
}

#[test]
fn hover_takes_the_first_resolved_message_around_the_target() {
    let facts = vec![(true, false, true), (false, true, true), (true, true, false), (true, true, true), (true, true, true)];
    assert_eq!(first_message_ref(&facts), Some(3));
    assert_eq!(first_message_ref(&vec![(true, true, false)]), None);
}
