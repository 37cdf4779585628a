use objc_lsp::header_detect::{detect_header_language, to_clang_x_flag, HeaderLanguage};

fn h(src: &str) -> HeaderLanguage {
    detect_header_language("test.h", src)
}

fn detect_language(src: &str) -> &'static str {
    match detect_header_language("test.h", src) {
        HeaderLanguage::ObjC | HeaderLanguage::ObjCPlusPlus => "objective-c",
        HeaderLanguage::C => "c",
        HeaderLanguage::Cpp => "c++",
    }
}

#[test]
fn detects_objc_interface() {
    assert_eq!(h("@interface Foo : NSObject\n@end"), HeaderLanguage::ObjC);
}

#[test]
fn detects_objc_import() {
    assert_eq!(h("#import <Foundation/Foundation.h>"), HeaderLanguage::ObjC);
}

#[test]
fn detects_cpp_class() {
    assert_eq!(h("class Foo { int x; };"), HeaderLanguage::Cpp);
}

#[test]
fn detects_plain_c() {
    assert_eq!(h("typedef struct { int x; } Foo;"), HeaderLanguage::C);
}

#[test]
fn objc_wins_over_cpp_markers() {
    assert_eq!(h("@interface Foo : NSObject\nclass Bar {};\n@end"), HeaderLanguage::ObjC);
}

#[test]
fn header_detect_plain_c() {
    let src = "int add(int a, int b) { return a + b; }";
    assert_eq!(detect_language(src), "c");
}

#[test]
fn objcpp_for_mm_files() {
    assert_eq!(detect_header_language("a.mm", "@interface A\n@end"), HeaderLanguage::ObjCPlusPlus);
    assert_eq!(detect_header_language("a.mm", "namespace x {}"), HeaderLanguage::ObjCPlusPlus);
    assert_eq!(detect_header_language("a.mm", "int x;"), HeaderLanguage::C);
}

#[test]
fn markers_after_first_8k_are_ignored() {
    let mut src = "x".repeat(8192);
    src.push_str("@interface");
    assert_eq!(h(&src), HeaderLanguage::C);
    let mut src2 = "x".repeat(8182);
    src2.push_str("@interface");
    assert_eq!(h(&src2), HeaderLanguage::ObjC);
}

#[test]
fn clang_x_flags() {
    assert_eq!(to_clang_x_flag(HeaderLanguage::ObjC), "objective-c-header");
    assert_eq!(to_clang_x_flag(HeaderLanguage::ObjCPlusPlus), "objective-c++-header");
    assert_eq!(to_clang_x_flag(HeaderLanguage::C), "c-header");
    assert_eq!(to_clang_x_flag(HeaderLanguage::Cpp), "c++-header");
}

#[test]
fn angle_include_marks_cpp() {
    assert_eq!(h("#include <vector>\nint f(void);"), HeaderLanguage::Cpp);
    assert_eq!(h("#include \"local.h\"\nint f(void);"), HeaderLanguage::C);
    assert_eq!(h("int a(int x) { return x > 0; }\n#include <broken"), HeaderLanguage::C);
}

#[test]
fn sample_cut_inside_a_character_keeps_whole_characters() {
    // 8191 ASCII bytes, then a two-byte character across the 8192 mark.
    let mut src = "x".repeat(8191);
    src.push('é');
    src.push_str("@interface");
    assert_eq!(h(&src), HeaderLanguage::C);
    let mut near = "x".repeat(8170);
    near.push('é');
    near.push_str("@end");
    assert_eq!(h(&near), HeaderLanguage::ObjC);
}
