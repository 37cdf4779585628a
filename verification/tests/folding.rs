use objc_lsp::folding::{folding_ranges, kind_display_name, FoldingRange, FoldingRangeKind};
use objc_lsp::parser::ObjcParser;

fn parse_and_fold(source: &str) -> Vec<FoldingRange> {
    let mut parser = ObjcParser::new().unwrap();
    let parsed = parser.parse(source).unwrap();
    folding_ranges(&parsed)
}

#[test]
fn test_interface_fold() {
    let src = "\
@interface Foo : NSObject
- (void)bar;
- (void)baz;
@end
";
    let ranges = parse_and_fold(src);
    assert!(ranges.iter().any(|r| r.start_line == 0 && r.end_line == 3), "{ranges:?}");
}

#[test]
fn test_implementation_fold() {
    let src = "\
@implementation Foo
- (void)bar {
    NSLog(@\"hello\");
}
@end
";
    let ranges = parse_and_fold(src);
    assert!(ranges.iter().any(|r| r.start_line == 0 && r.end_line == 4), "{ranges:?}");
}

#[test]
fn test_method_body_fold() {
    let src = "\
@implementation Foo
- (void)bar {
    NSLog(@\"hello\");
    NSLog(@\"world\");
}
@end
";
    let ranges = parse_and_fold(src);
    assert!(ranges.iter().any(|r| r.start_line == 1 && r.end_line >= 4), "{ranges:?}");
}

#[test]
fn test_import_fold() {
    let src = "\
#import <Foundation/Foundation.h>
#import <UIKit/UIKit.h>
#import \"MyClass.h\"

@interface Foo : NSObject
@end
";
    let ranges = parse_and_fold(src);
    assert!(
        ranges.iter().any(|r| r.start_line == 0 && r.end_line == 2 && r.kind == Some(FoldingRangeKind::Imports)),
        "{ranges:?}"
    );
}

#[test]
fn test_multiline_comment_fold() {
    let src = "\
/*
 * This is a multi-line comment
 * spanning several lines
 */
@interface Foo : NSObject
@end
";
    let ranges = parse_and_fold(src);
    assert!(
        ranges.iter().any(|r| r.start_line == 0 && r.end_line == 3 && r.kind == Some(FoldingRangeKind::Comment)),
        "{ranges:?}"
    );
}

#[test]
fn test_nonnull_fold() {
    let src = "\
NS_ASSUME_NONNULL_BEGIN
@interface Foo : NSObject
- (void)bar;
@end
NS_ASSUME_NONNULL_END
";
    let ranges = parse_and_fold(src);
    assert!(ranges.iter().any(|r| r.start_line == 0 && r.end_line == 4), "{ranges:?}");
}

#[test]
fn test_pragma_mark_fold() {
    let src = "\
@implementation Foo
#pragma mark - Lifecycle
- (instancetype)init {
    return self;
}
#pragma mark - Public
- (void)doSomething {
}
@end
";
    let ranges = parse_and_fold(src);
    assert!(
        ranges.iter().any(|r| r.collapsed_text.as_deref().map_or(false, |t| t.contains("#pragma mark"))),
        "{ranges:?}"
    );
}

#[test]
fn test_protocol_fold() {
    let src = "\
@protocol MyProtocol <NSObject>
- (void)requiredMethod;
@optional
- (void)optionalMethod;
@end
";
    let ranges = parse_and_fold(src);
    assert!(ranges.iter().any(|r| r.start_line == 0 && r.end_line == 4), "{ranges:?}");
}

#[test]
fn pragma_sections_end_before_next_mark_or_end() {
    let src = "\
@implementation Foo
#pragma mark - Lifecycle
- (instancetype)init {
    return self;
}
#pragma mark - Public
- (void)doSomething {
}
@end
";
    let ranges = parse_and_fold(src);
    let pragmas: Vec<(u32, u32, String)> = ranges
        .iter()
        .filter(|r| r.collapsed_text.as_deref().map_or(false, |t| t.starts_with("#pragma mark")))
        .map(|r| (r.start_line, r.end_line, r.collapsed_text.clone().unwrap()))
        .collect();
    assert_eq!(
        pragmas,
        vec![(1, 4, "#pragma mark - Lifecycle".to_string()), (5, 7, "#pragma mark - Public".to_string())]
    );
}

#[test]
fn nested_nonnull_regions_pair_innermost_first() {
    let src = "NS_ASSUME_NONNULL_BEGIN\nNS_ASSUME_NONNULL_BEGIN\nint a;\nNS_ASSUME_NONNULL_END\nNS_ASSUME_NONNULL_END\nNS_ASSUME_NONNULL_END\n";
    let ranges = parse_and_fold(src);
    let regions: Vec<(u32, u32)> = ranges
        .iter()
        .filter(|r| r.collapsed_text.as_deref() == Some("NS_ASSUME_NONNULL..."))
        .map(|r| (r.start_line, r.end_line))
        .collect();
    assert_eq!(regions, vec![(0, 4), (1, 3)]);
}

#[test]
fn single_import_line_is_not_folded_and_output_is_sorted() {
    let src = "#import <A/A.h>\n\n@interface Foo : NSObject\n- (void)a;\n@end\n#include \"x.h\"\n#include \"y.h\"\n";
    let ranges = parse_and_fold(src);
    assert!(!ranges.iter().any(|r| r.start_line == 0 && r.kind == Some(FoldingRangeKind::Imports)));
    assert!(ranges.iter().any(|r| r.start_line == 5 && r.end_line == 6 && r.kind == Some(FoldingRangeKind::Imports)));
    assert!(ranges.windows(2).all(|w| w[0].start_line <= w[1].start_line));
    let iface = ranges.iter().find(|r| r.start_line == 2).unwrap();
    assert_eq!(iface.collapsed_text.as_deref(), Some("@interface..."));
}

#[test]
fn display_names_of_block_kinds() {
    assert_eq!(kind_display_name("class_interface"), "@interface");
    assert_eq!(kind_display_name("class_implementation"), "@implementation");
    assert_eq!(kind_display_name("protocol_declaration"), "@protocol");
    assert_eq!(kind_display_name("category_interface"), "@interface (category)");
    assert_eq!(kind_display_name("category_implementation"), "@implementation (category)");
    assert_eq!(kind_display_name("comment"), "comment");
}

#[test]
fn single_line_comment_is_not_folded() {
    let ranges = parse_and_fold("// one\n// two\nint x;\n");
    assert!(ranges.iter().all(|r| r.kind != Some(FoldingRangeKind::Comment)));
}
