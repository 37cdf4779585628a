use objc_lsp::lsp::Diagnostic;
use objc_lsp::nullability::{has_unannotated_pointer, nullability_diagnostics};

fn messages(diags: &[Diagnostic]) -> Vec<&str> {
    diags.iter().map(|d| d.message.as_str()).collect()
}

#[test]
fn no_diags_for_file_with_nonnull_region() {
    let src = r#"
#import <Foundation/Foundation.h>
NS_ASSUME_NONNULL_BEGIN
@interface Foo : NSObject
- (NSString *)name;
- (void)setItems:(NSArray *)items;
@end
NS_ASSUME_NONNULL_END
"#;
    let diags = nullability_diagnostics(src, "h");
    assert!(diags.is_empty(), "should have no diagnostics inside nonnull region, got: {:?}", messages(&diags));
}

#[test]
fn warns_once_for_header_missing_region() {
    let src = r#"
@interface Bar : NSObject
- (void)doSomething;
@end
"#;
    let diags = nullability_diagnostics(src, "h");
    assert!(
        diags.iter().any(|d| d.message.contains("NS_ASSUME_NONNULL_BEGIN")),
        "expected region-missing diagnostic, got: {:?}",
        messages(&diags)
    );
}

#[test]
fn no_region_warning_for_m_files() {
    let src = r#"
@implementation Bar
- (void)doSomething {}
@end
"#;
    let diags = nullability_diagnostics(src, "m");
    assert!(
        diags.iter().all(|d| !d.message.contains("NS_ASSUME_NONNULL_BEGIN")),
        "should not warn about missing region in .m files, got: {:?}",
        messages(&diags)
    );
}

#[test]
fn warns_for_unannotated_pointer_outside_region() {
    let src = r#"
@interface Baz : NSObject
- (NSString *)firstName;
@end
"#;
    let diags = nullability_diagnostics(src, "h");
    let pointer_diags: Vec<_> = diags.iter().filter(|d| d.message.contains("nullability annotation")).collect();
    assert!(!pointer_diags.is_empty(), "expected unannotated pointer diagnostic, got: {:?}", messages(&diags));
}

#[test]
fn no_pointer_warning_when_annotated_nullable() {
    let src = r#"
NS_ASSUME_NONNULL_BEGIN
@interface Qux : NSObject
- (NSString * _Nullable)optionalName;
@end
NS_ASSUME_NONNULL_END
"#;
    let diags = nullability_diagnostics(src, "h");
    assert!(diags.is_empty(), "should not warn for annotated pointer in nonnull region, got: {:?}", messages(&diags));
}

#[test]
fn no_pointer_warning_when_annotated_nonnull() {
    let src = r#"@interface Quux : NSObject
- (NSString * _Nonnull)name;
@end
"#;
    let diags = nullability_diagnostics(src, "h");
    let pointer_diags: Vec<_> = diags.iter().filter(|d| d.message.contains("nullability annotation")).collect();
    assert!(pointer_diags.is_empty(), "should not warn when _Nonnull is present, got: {:?}", messages(&diags));
}

#[test]
fn no_diag_for_non_method_line_with_pointer() {
    let src = r#"
@interface Corge : NSObject
@property (nonatomic, strong) NSString *name;
@end
"#;
    let diags = nullability_diagnostics(src, "h");
    let pointer_diags: Vec<_> = diags.iter().filter(|d| d.message.contains("nullability annotation")).collect();
    assert!(pointer_diags.is_empty(), "should not warn for @property lines, got: {:?}", messages(&diags));
}

#[test]
fn pointer_diagnostic_position_is_byte_column_of_star() {
    let src = "@interface A\n  - (NSString *)a;\n- (é *)b;\n@end\n";
    let diags = nullability_diagnostics(src, "m");
    assert_eq!(diags.len(), 2);
    assert_eq!(diags[0].code.as_deref(), Some("unannotated-pointer"));
    assert_eq!((diags[0].range.start.line, diags[0].range.start.character), (1, 14));
    assert_eq!((diags[0].range.end.line, diags[0].range.end.character), (1, 15));
    assert_eq!((diags[1].range.start.line, diags[1].range.start.character), (2, 6));
    let all = nullability_diagnostics(src, "h");
    assert_eq!(all.len(), 3);
    assert_eq!((all[0].range.start.line, all[0].range.start.character), (0, 0));
    assert_eq!(all[0].source.as_deref(), Some("objc-lsp/nullability"));
}

#[test]
fn region_markers_toggle_checking() {
    let src = "NS_ASSUME_NONNULL_BEGIN\n- (id *)a;\nNS_ASSUME_NONNULL_END\n+ (id *)b;\n";
    let diags = nullability_diagnostics(src, "h");
    assert_eq!(diags.len(), 1);
    assert_eq!(diags[0].range.start.line, 3);
}

#[test]
fn unannotated_pointer_checks() {
    assert!(has_unannotated_pointer("- (id *)x;"));
    assert!(!has_unannotated_pointer("- (void)x;"));
    assert!(!has_unannotated_pointer("- (id * __nullable)x;"));
    assert!(!has_unannotated_pointer("- (nonnull id *)x;"));
}

#[test]
fn one_warning_per_pointer_parameter_and_return_type() {
    let diags = nullability_diagnostics("- (NSString *)foo:(NSArray *)a;\n", "m");
    assert_eq!(diags.len(), 2);
    assert_eq!((diags[0].range.start.line, diags[0].range.start.character), (0, 12));
    assert_eq!((diags[0].range.end.line, diags[0].range.end.character), (0, 13));
    assert_eq!((diags[1].range.start.line, diags[1].range.start.character), (0, 27));
    assert_eq!((diags[1].range.end.line, diags[1].range.end.character), (0, 28));
}

#[test]
fn diagnostics_carry_their_codes() {
    let src = "\n@interface Baz : NSObject\n- (NSString *)firstName;\n@end\n";
    let diags = nullability_diagnostics(src, "h");
    assert_eq!(diags.len(), 2);
    assert_eq!((diags[0].range.start.line, diags[0].range.start.character), (0, 0));
    assert_eq!(diags[0].code.as_deref(), Some("missing-nonnull-region"));
    assert_eq!((diags[1].range.start.line, diags[1].range.start.character), (2, 12));
    assert_eq!((diags[1].range.end.line, diags[1].range.end.character), (2, 13));
    assert!(diags[1].message.contains("nullability annotation"));
    assert_eq!(diags[1].code.as_deref(), Some("unannotated-pointer"));
}
