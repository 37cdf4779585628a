use objc_lsp::compile_db::CompileCommandsDb;
use objc_lsp::references::{reference_locations, Occurrence};
use objc_lsp::documents::{notification_route, request_route, DocumentStore, NotificationRoute, RequestRoute};
use objc_lsp::release::{asset_name, find_asset, missing_asset_message, platform_asset_suffix, release_binary_path, Architecture, Os};

#[test]
fn documents_open_change_close() {
    let mut s = DocumentStore::new();
    assert!(s.get("file:///a.m").is_none());
    s.open("file:///a.m", "one".to_string());
    s.open("file:///b.m", "two".to_string());
    assert_eq!(s.get("file:///a.m").map(|t| t.as_str()), Some("one"));
    assert!(s.change("file:///a.m", "uno".to_string()));
    assert_eq!(s.get("file:///a.m").map(|t| t.as_str()), Some("uno"));
    assert!(!s.change("file:///c.m", "tres".to_string()));
    assert!(s.get("file:///c.m").is_none());
    s.open("file:///a.m", "again".to_string());
    assert_eq!(s.get("file:///a.m").map(|t| t.as_str()), Some("again"));
    s.close("file:///a.m");
    assert!(s.get("file:///a.m").is_none());
    assert_eq!(s.get("file:///b.m").map(|t| t.as_str()), Some("two"));
    s.close("file:///never.m");
    assert_eq!(s.get("file:///b.m").map(|t| t.as_str()), Some("two"));
}

#[test]
fn routes_of_methods() {
    assert_eq!(request_route("textDocument/hover"), RequestRoute::Hover);
    assert_eq!(request_route("textDocument/documentSymbol"), RequestRoute::DocumentSymbol);
    assert_eq!(request_route("textDocument/definition"), RequestRoute::GotoDefinition);
    assert_eq!(request_route("textDocument/declaration"), RequestRoute::GotoDeclaration);
    assert_eq!(request_route("textDocument/completion"), RequestRoute::Completion);
    assert_eq!(request_route("workspace/symbol"), RequestRoute::Unknown);
    assert_eq!(notification_route("textDocument/didOpen"), NotificationRoute::DidOpen);
    assert_eq!(notification_route("textDocument/didChange"), NotificationRoute::DidChange);
    assert_eq!(notification_route("textDocument/didClose"), NotificationRoute::DidClose);
    assert_eq!(notification_route("$/cancelRequest"), NotificationRoute::Ignored);
}

#[test]
fn release_assets() {
    assert_eq!(platform_asset_suffix(Os::Mac, Architecture::Aarch64), Ok(("darwin", "arm64")));
    assert_eq!(platform_asset_suffix(Os::Linux, Architecture::X8664), Ok(("linux", "x64")));
    assert_eq!(
        platform_asset_suffix(Os::Windows, Architecture::X8664),
        Err("Objective-C development is not supported on Windows".to_string())
    );
    assert_eq!(platform_asset_suffix(Os::Linux, Architecture::X86), Err("32-bit x86 is not supported".to_string()));
    assert_eq!(asset_name(Os::Mac, Architecture::X8664), Ok("objc-lsp-darwin-x64".to_string()));
    assert_eq!(release_binary_path("v1.2.0"), "objc-lsp-v1.2.0/objc-lsp");
    let assets = vec!["objc-lsp-linux-x64".to_string(), "objc-lsp-darwin-arm64".to_string()];
    assert_eq!(find_asset(&assets, "objc-lsp-darwin-arm64"), Some(1));
    assert_eq!(find_asset(&assets, "objc-lsp-linux-arm64"), None);
    assert_eq!(missing_asset_message("a", "v1"), "No binary asset 'a' found in release v1");
}

fn occurrence(file: Option<&str>, start: (u32, u32), end: (u32, u32)) -> Occurrence {
    Occurrence { file: file.map(|f| f.to_string()), start, end }
}

#[test]
fn reference_locations_skip_declaration_unless_asked() {
    let occ = vec![
        occurrence(Some("/src/Foo.m"), (3, 5), (3, 8)),
        occurrence(Some("/src/Bar.m"), (10, 1), (10, 4)),
        occurrence(None, (2, 2), (2, 3)),
        occurrence(Some("/src/Baz.m"), (0, 1), (0, 2)),
    ];
    let without = reference_locations(&occ, false, (3, 5));
    assert_eq!(without.len(), 1);
    assert_eq!(without[0].uri, "file:///src/Bar.m");
    assert_eq!((without[0].range.start.line, without[0].range.start.character), (9, 0));
    assert_eq!((without[0].range.end.line, without[0].range.end.character), (9, 3));
    let with = reference_locations(&occ, true, (3, 5));
    assert_eq!(with.len(), 2);
    assert_eq!(with[0].uri, "file:///src/Foo.m");
    assert_eq!((with[0].range.start.line, with[0].range.start.character), (2, 4));
}

#[test]
fn compile_db_find_and_load_without_database() {
    let db = CompileCommandsDb::find_and_load("/no/such/dir/for/objc/tests", |_p: String| {
        panic!("no database path should be handed to the loader")
    });
    assert!(db.is_none());
}
