use objc_lsp::inlay_hints::inlay_hints;
use objc_lsp::lsp::{Position, Range};
use objc_lsp::parser::{ObjcParser, ParsedFile};

fn parse(src: &str) -> ParsedFile {
    ObjcParser::new().unwrap().parse(src).unwrap()
}

fn labels(src: &str) -> Vec<String> {
    inlay_hints(&parse(src), None).into_iter().map(|h| h.label).collect()
}

#[test]
fn no_hints_for_nullary_send() {
    let hints = inlay_hints(&parse("[obj greet];"), None);
    assert!(hints.is_empty());
}

#[test]
fn hints_for_compound_send() {
    let l = labels("void f(id obj, NSString *n) { [obj initWithName:n age:42]; }");
    assert!(l.iter().any(|s| s == "initWithName:"), "{l:?}");
    assert!(l.iter().any(|s| s == "age:"), "{l:?}");
}

#[test]
fn hints_for_single_keyword_send() {
    let l = labels("void f(id obj, NSString *n) { [obj setName:n]; }");
    assert_eq!(l, ["setName:"]);
}

#[test]
fn no_hints_for_nested_nullary_outer() {
    let hints = inlay_hints(&parse("id x = [[NSObject alloc] init];"), None);
    assert!(hints.is_empty());
}

#[test]
fn hints_for_keyword_in_nested_send() {
    let l = labels("void f(NSString *n) { id x = [[NSObject alloc] initWithName:n]; }");
    assert!(l.iter().any(|s| s == "initWithName:"), "{l:?}");
    assert!(!l.iter().any(|s| s == "alloc:"));
}

#[test]
fn range_filter_excludes_out_of_range_hints() {
    let src = "void f(id a, id b, id c, id d) {\n[a setX:b];\n[c setY:d];\n}";
    let range = Range { start: Position { line: 1, character: 0 }, end: Position { line: 1, character: 100 } };
    let hints = inlay_hints(&parse(src), Some(range));
    assert!(!hints.is_empty());
    for h in &hints {
        assert_eq!(h.position.line, 1);
    }
}

#[test]
fn hint_sits_at_argument_start_with_right_padding() {
    let src = "void f(id obj, id n) { [obj initWithName:n age:42]; }";
    let hints = inlay_hints(&parse(src), None);
    assert_eq!(hints.len(), 2);
    let col_n = src.find(":n").unwrap() as u32 + 1;
    let col_42 = src.find("42").unwrap() as u32;
    assert_eq!((hints[0].position.line, hints[0].position.character), (0, col_n));
    assert_eq!((hints[1].position.line, hints[1].position.character), (0, col_42));
    assert!(!hints[0].padding_left && hints[0].padding_right);
}
