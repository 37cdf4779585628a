use objc_lsp::cursor_kinds::{
    CX_CURSOR_FUNCTION_DECL, CX_CURSOR_OBJC_CLASS_REF, CX_CURSOR_OBJC_INTERFACE_DECL, CX_CURSOR_OBJC_PROPERTY_DECL,
    CX_CURSOR_OBJC_PROTOCOL_DECL, CX_CURSOR_OBJC_PROTOCOL_REF, CX_CURSOR_OBJC_SUPER_CLASS_REF,
    CX_CURSOR_STRUCT_DECL,
};
use objc_lsp::hierarchy::{
    group_calls, is_call_expr_kind, is_supertype_ref, links_to_supertype, subtype_candidate, HierarchyItem,
};
use objc_lsp::lsp::{Position, Range};
use objc_lsp::rename::is_renameable_kind;
use objc_lsp::symbols::SymbolKind;

fn item(name: &str, uri: &str) -> HierarchyItem {
    let r = Range { start: Position { line: 1, character: 0 }, end: Position { line: 3, character: 1 } };
    HierarchyItem { name: name.to_string(), kind: SymbolKind::Method, uri: uri.to_string(), range: r, selection_range: r }
}

fn at(line: u32) -> Range {
    Range { start: Position { line, character: 2 }, end: Position { line, character: 9 } }
}

#[test]
fn calls_are_gathered_by_name_and_uri_in_first_found_order() {
    let calls = vec![
        (item("run", "file:///a.m"), at(5)),
        (item("stop", "file:///a.m"), at(6)),
        (item("run", "file:///b.m"), at(7)),
        (item("run", "file:///a.m"), at(8)),
    ];
    let groups = group_calls(&calls);
    assert_eq!(groups.len(), 3);
    assert_eq!((groups[0].0.name.as_str(), groups[0].0.uri.as_str()), ("run", "file:///a.m"));
    assert_eq!(groups[0].1, vec![at(5), at(8)]);
    assert_eq!(groups[1].0.name, "stop");
    assert_eq!(groups[1].1, vec![at(6)]);
    assert_eq!(groups[2].0.uri, "file:///b.m");
    assert_eq!(groups[2].1, vec![at(7)]);
    assert!(group_calls(&Vec::new()).is_empty());
}

#[test]
fn call_and_supertype_kinds() {
    assert!(is_call_expr_kind(103));
    assert!(is_call_expr_kind(104));
    assert!(!is_call_expr_kind(CX_CURSOR_FUNCTION_DECL));
    assert!(is_supertype_ref(CX_CURSOR_OBJC_SUPER_CLASS_REF));
    assert!(is_supertype_ref(CX_CURSOR_OBJC_PROTOCOL_REF));
    assert!(!is_supertype_ref(CX_CURSOR_OBJC_CLASS_REF));
    assert!(subtype_candidate(CX_CURSOR_OBJC_INTERFACE_DECL, false));
    assert!(!subtype_candidate(CX_CURSOR_OBJC_PROTOCOL_DECL, false));
    assert!(subtype_candidate(CX_CURSOR_OBJC_PROTOCOL_DECL, true));
}

#[test]
fn supertype_links_follow_the_kind_of_supertype() {
    assert!(links_to_supertype(CX_CURSOR_OBJC_SUPER_CLASS_REF, false, Some("NSObject"), "NSObject"));
    assert!(!links_to_supertype(CX_CURSOR_OBJC_SUPER_CLASS_REF, true, Some("NSObject"), "NSObject"));
    assert!(links_to_supertype(CX_CURSOR_OBJC_PROTOCOL_REF, true, Some("NSCoding"), "NSCoding"));
    assert!(!links_to_supertype(CX_CURSOR_OBJC_PROTOCOL_REF, false, Some("NSCoding"), "NSCoding"));
    assert!(!links_to_supertype(CX_CURSOR_OBJC_PROTOCOL_REF, true, None, "NSCoding"));
    assert!(!links_to_supertype(CX_CURSOR_OBJC_PROTOCOL_REF, true, Some("NSCopying"), "NSCoding"));
}

#[test]
fn renameable_kinds() {
    assert!(is_renameable_kind(CX_CURSOR_OBJC_PROPERTY_DECL));
    assert!(is_renameable_kind(CX_CURSOR_FUNCTION_DECL));
    assert!(!is_renameable_kind(CX_CURSOR_OBJC_INTERFACE_DECL));
    assert!(!is_renameable_kind(CX_CURSOR_STRUCT_DECL));
}
