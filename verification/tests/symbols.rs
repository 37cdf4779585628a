use objc_lsp::header_detect::{detect_header_language, HeaderLanguage};
use objc_lsp::lsp::{Position, Range};
use objc_lsp::parser::{ObjcParser, ParsedFile};
use objc_lsp::symbols::{capture_name_to_symbol_kind, document_symbols, document_symbols_of, SymbolKind};
use objc_lsp::syntax_tree::NodeSpan;

const PERSON_H: &str = "\
#import <Foundation/Foundation.h>

/// A person with a name and an age.
@interface Person : NSObject

@property (nonatomic, copy) NSString *name;
@property (nonatomic, assign) NSInteger age;

- (instancetype)initWithName:(NSString *)name age:(NSInteger)age;
- (NSString *)greet;

@end
";

const ROBOT_H: &str = "\
#import <Foundation/Foundation.h>

@protocol Greetable <NSObject>
- (NSString *)greet;
@optional
- (void)wave;
@end

@interface Robot : NSObject <Greetable>
@property (nonatomic) NSInteger serial;
@end
";

const PERSON_M: &str = "\
#import \"Person.h\"

@implementation Person

- (NSString *)greet {
    return @\"Hello\";
}

@end
";

fn parse(src: &str) -> ParsedFile {
    ObjcParser::new().unwrap().parse(src).unwrap()
}

fn names(src: &str) -> Vec<String> {
    let mut out = Vec::new();
    for s in document_symbols(&parse(src)).unwrap() {
        out.push(s.name);
        for c in s.children.unwrap_or_default() {
            out.push(c.name);
        }
    }
    out
}

fn detect_language(src: &str) -> &'static str {
    match detect_header_language("test.h", src) {
        HeaderLanguage::ObjC | HeaderLanguage::ObjCPlusPlus => "objective-c",
        HeaderLanguage::C => "c",
        HeaderLanguage::Cpp => "c++",
    }
}

#[test]
fn header_detect_objc_class() {
    assert_eq!(detect_language(PERSON_H), "objective-c");
}

#[test]
fn header_detect_protocol() {
    assert_eq!(detect_language(ROBOT_H), "objective-c");
}

#[test]
fn document_symbol_finds_class() {
    let n = names(PERSON_H);
    assert!(n.iter().any(|s| s == "Person"), "{n:?}");
}

#[test]
fn document_symbol_finds_methods() {
    let n = names(PERSON_H);
    assert!(n.iter().any(|s| s.contains("greet") || s.contains("initWithName")), "{n:?}");
}

#[test]
fn document_symbol_finds_protocol() {
    let n = names(ROBOT_H);
    assert!(n.iter().any(|s| s == "Greetable" || s == "Robot"), "{n:?}");
}

#[test]
fn document_symbol_empty_source() {
    assert!(document_symbols(&parse("")).unwrap().is_empty());
}

#[test]
fn document_symbol_implementation_file() {
    let n = names(PERSON_M);
    assert!(n.iter().any(|s| s == "Person"), "{n:?}");
}

#[test]
fn class_symbol_kind_and_ranges() {
    let syms = document_symbols(&parse("@interface Foo : NSObject\n@end\n")).unwrap();
    let foo = syms.iter().find(|s| s.name == "Foo").unwrap();
    assert_eq!(foo.kind, SymbolKind::Class);
    assert_eq!(foo.selection_range.start, Position { line: 0, character: 11 });
    assert_eq!(foo.selection_range.end, Position { line: 0, character: 14 });
    assert_eq!(foo.range.start, Position { line: 0, character: 0 });
    assert!(foo.detail.is_none() && foo.children.as_ref().map_or(false, |c| c.is_empty()));
}

#[test]
fn methods_nest_under_their_class() {
    let syms = document_symbols(&parse("@interface Foo : NSObject\n- (void)bar;\n@end\n")).unwrap();
    assert_eq!(syms.len(), 1);
    assert_eq!(syms[0].name, "Foo");
    let kids = syms[0].children.as_ref().unwrap();
    assert_eq!(kids.len(), 1);
    assert_eq!(kids[0].kind, SymbolKind::Method);
    assert!(kids[0].children.is_none());
    assert!(document_symbols(&parse("")).unwrap().is_empty());
}

#[test]
fn nesting_follows_the_ranges() {
    let names = vec!["class.def".to_string(), "class.name".to_string(), "method.def".to_string(), "method.name".to_string()];
    let sp = |r0: usize, c0: usize, r1: usize, c1: usize| NodeSpan { start_byte: 0, end_byte: 1, start_row: r0, start_col: c0, end_row: r1, end_col: c1 };
    let src = "A";
    let matches = vec![
        vec![(0, sp(0, 0, 2, 4)), (1, sp(0, 0, 0, 1))],
        vec![(2, sp(1, 0, 1, 5)), (3, sp(0, 0, 0, 1))],
        vec![(2, sp(3, 0, 3, 5)), (3, sp(0, 0, 0, 1))],
    ];
    let syms = document_symbols_of(&names, &matches, src);
    assert_eq!(syms.len(), 2);
    assert_eq!(syms[0].kind, SymbolKind::Class);
    assert_eq!(syms[0].children.as_ref().unwrap().len(), 1);
    assert_eq!(syms[1].kind, SymbolKind::Method);
    assert!(syms[1].children.is_none());
}

#[test]
fn property_symbol_is_named_by_its_declarator() {
    let syms = document_symbols(&parse(PERSON_H)).unwrap();
    let person = syms.iter().find(|s| s.name == "Person").unwrap();
    let kids = person.children.as_ref().unwrap();
    assert!(kids.iter().any(|s| s.kind == SymbolKind::Property && s.name == "age"));
}

#[test]
fn capture_kinds() {
    assert_eq!(capture_name_to_symbol_kind("class.def"), SymbolKind::Class);
    assert_eq!(capture_name_to_symbol_kind("impl.def"), SymbolKind::Class);
    assert_eq!(capture_name_to_symbol_kind("protocol.def"), SymbolKind::Interface);
    assert_eq!(capture_name_to_symbol_kind("method_impl.def"), SymbolKind::Method);
    assert_eq!(capture_name_to_symbol_kind("prop.def"), SymbolKind::Property);
    assert_eq!(capture_name_to_symbol_kind("cat.def"), SymbolKind::Module);
    assert_eq!(capture_name_to_symbol_kind("other"), SymbolKind::Object);
}

#[test]
fn matches_without_a_name_or_def_give_no_symbol() {
    let names = vec!["a.def".to_string(), "a.name".to_string(), "a.type".to_string()];
    let sp = |s: usize, e: usize| NodeSpan { start_byte: s, end_byte: e, start_row: 0, start_col: s, end_row: 0, end_col: e };
    let src = "Foo bar";
    let matches = vec![
        vec![(0, sp(0, 7)), (1, sp(4, 7))],
        vec![(0, sp(0, 3)), (2, sp(0, 3))],
        vec![(1, sp(0, 3))],
        vec![(0, sp(0, 7)), (1, sp(8, 9))],
        vec![(7, sp(0, 3)), (1, sp(0, 3))],
    ];
    let syms = document_symbols_of(&names, &matches, src);
    let got: Vec<(String, Range)> = syms.into_iter().map(|s| (s.name, s.selection_range)).collect();
    assert_eq!(got.len(), 2);
    assert_eq!(got[0].0, "bar");
    assert_eq!(got[1].0, "<?>");
}

#[test]
fn properties_and_methods_in_declaration_order() {
    let b = names("@interface B : NSObject\n@property (nonatomic) NSInteger age;\n@property (nonatomic, copy) NSString *name;\n@end\n");
    assert_eq!(b, ["B", "age", "name"]);
    let c = names("@interface C : NSObject\n- (instancetype)initWithName:(NSString *)name age:(NSInteger)age;\n@end\n");
    assert_eq!(c, ["C", "initWithName"]);
}
