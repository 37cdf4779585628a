use objc_lsp::code_actions::{add_nonnull_action, generate_interface_action, syntax_code_actions, CodeActionContext};

const H_URI: &str = "file:///tmp/Foo.h";
const M_URI: &str = "file:///tmp/Foo.m";

#[test]
fn no_action_when_interface_present() {
    let src = "@interface Foo : NSObject\n@end\n@implementation Foo\n@end\n";
    let ctx = CodeActionContext { uri: M_URI, source: src, extension: "m" };
    let actions = syntax_code_actions(&ctx);
    assert!(actions.iter().all(|a| !a.title.contains("@interface")));
}

#[test]
fn action_offered_when_interface_missing() {
    let src = "@implementation Bar\n- (void)run {}\n@end\n";
    let ctx = CodeActionContext { uri: M_URI, source: src, extension: "m" };
    let actions = syntax_code_actions(&ctx);
    assert!(actions.iter().any(|a| a.title.contains("Bar")));
}

#[test]
fn no_stub_action_for_category_impl() {
    let src = "@implementation Foo (Utils)\n- (void)help {}\n@end\n";
    let ctx = CodeActionContext { uri: M_URI, source: src, extension: "m" };
    let actions = syntax_code_actions(&ctx);
    assert!(actions.iter().all(|a| !a.title.contains("@interface")));
}

#[test]
fn nonnull_action_offered_for_header_without_it() {
    let src = "#import <Foundation/Foundation.h>\n\n@interface Baz : NSObject\n@end\n";
    let ctx = CodeActionContext { uri: H_URI, source: src, extension: "h" };
    let actions = syntax_code_actions(&ctx);
    assert!(actions.iter().any(|a| a.title.contains("NS_ASSUME_NONNULL")));
}

#[test]
fn nonnull_action_not_offered_when_already_present() {
    let src = "#import <Foundation/Foundation.h>\nNS_ASSUME_NONNULL_BEGIN\n@interface Baz : NSObject\n@end\nNS_ASSUME_NONNULL_END\n";
    let ctx = CodeActionContext { uri: H_URI, source: src, extension: "h" };
    let actions = syntax_code_actions(&ctx);
    assert!(actions.iter().all(|a| !a.title.contains("NS_ASSUME_NONNULL")));
}

#[test]
fn no_nonnull_action_for_m_files() {
    let src = "@implementation Foo\n@end\n";
    let ctx = CodeActionContext { uri: M_URI, source: src, extension: "m" };
    let actions = syntax_code_actions(&ctx);
    assert!(actions.iter().all(|a| !a.title.contains("NS_ASSUME_NONNULL")));
}

#[test]
fn generated_interface_text_is_correct() {
    let src = "@implementation Qux\n- (void)go {}\n@end\n";
    let ctx = CodeActionContext { uri: M_URI, source: src, extension: "m" };
    let actions = syntax_code_actions(&ctx);
    let action = actions.iter().find(|a| a.title.contains("Qux")).unwrap();
    let edit_text = action.edits.first().unwrap().new_text.as_str();
    assert!(edit_text.contains("@interface Qux : NSObject"));
    assert!(edit_text.contains("@end"));
}

#[test]
fn interface_stub_exact_text_and_title_for_two_classes() {
    let src = "@implementation A\n@end\n@implementation B : NSObject\n@end\n";
    let ctx = CodeActionContext { uri: M_URI, source: src, extension: "mm" };
    let action = generate_interface_action(&ctx).unwrap();
    assert_eq!(action.title, "Generate @interface stub for A, B");
    assert_eq!(action.uri, M_URI);
    assert!(!action.is_preferred);
    assert_eq!(action.edits.len(), 1);
    let e = &action.edits[0];
    assert_eq!((e.range.start.line, e.range.start.character, e.range.end.line, e.range.end.character), (0, 0, 0, 0));
    assert_eq!(e.new_text, "@interface A : NSObject\n\n@end\n\n@interface B : NSObject\n\n@end\n\n");
}

#[test]
fn interface_of_a_longer_name_does_not_count() {
    // `@interface FooBar` is no interface for `Foo`.
    let src = "@interface FooBar : NSObject\n@end\n@implementation Foo\n@end\n";
    let ctx = CodeActionContext { uri: M_URI, source: src, extension: "m" };
    let action = generate_interface_action(&ctx).unwrap();
    assert_eq!(action.title, "Generate @interface stub for Foo");
}

#[test]
fn nonnull_edits_follow_last_import() {
    let src = "#import <A/A.h>\n#include \"b.h\"\n\n@interface X\n@end\n";
    let ctx = CodeActionContext { uri: H_URI, source: src, extension: "h" };
    let action = add_nonnull_action(&ctx).unwrap();
    assert_eq!(action.title, "Add NS_ASSUME_NONNULL_BEGIN/END");
    assert_eq!(action.edits.len(), 2);
    assert_eq!((action.edits[0].range.start.line, action.edits[0].range.start.character), (2, 0));
    assert_eq!(action.edits[0].new_text, "\nNS_ASSUME_NONNULL_BEGIN\n");
    assert_eq!((action.edits[1].range.start.line, action.edits[1].range.start.character), (5, 0));
    assert_eq!(action.edits[1].new_text, "\nNS_ASSUME_NONNULL_END\n");
}

#[test]
fn nonnull_without_imports_inserts_at_top() {
    let src = "@interface Baz : NSObject\n@end\n";
    let ctx = CodeActionContext { uri: H_URI, source: src, extension: "h" };
    let action = add_nonnull_action(&ctx).unwrap();
    assert_eq!((action.edits[0].range.start.line, action.edits[0].range.start.character), (0, 0));
    assert_eq!(action.edits[0].new_text, "\nNS_ASSUME_NONNULL_BEGIN\n");
    assert_eq!((action.edits[1].range.start.line, action.edits[1].range.start.character), (2, 0));
    assert_eq!(action.edits[1].new_text, "\nNS_ASSUME_NONNULL_END\n");
}

#[test]
fn other_extensions_get_no_actions() {
    let ctx = CodeActionContext { uri: "file:///x.c", source: "@implementation Z\n@end\n", extension: "c" };
    assert!(syntax_code_actions(&ctx).is_empty());
}
