use objc_lsp::parser::{ObjcParser, ParsedFile};
use objc_lsp::tokens::{
    modifier_bits, semantic_tokens_full, semantic_tokens_legend, semantic_tokens_options, token_type_index,
    token_types, TokenCollector,
};
use objc_lsp::syntax_tree::NodeSpan;

const PERSON_H: &str = "\
#import <Foundation/Foundation.h>

NS_ASSUME_NONNULL_BEGIN

/// A person with a name and an age.
@interface Person : NSObject

@property (nonatomic, copy) NSString *name;
@property (nonatomic, assign) NSInteger age;

- (instancetype)initWithName:(NSString *)name age:(NSInteger)age;
- (NSString *)greet;
+ (instancetype)personWithName:(NSString *)name;

@end

NS_ASSUME_NONNULL_END
";

const PERSON_M: &str = "\
#import \"Person.h\"

@implementation Person

- (instancetype)initWithName:(NSString *)name age:(NSInteger)age {
    self = [super init];
    if (self) {
        _name = [name copy];
        _age = age;
    }
    return self;
}

- (NSString *)greet {
    return [NSString stringWithFormat:@\"Hello, %@\", self.name];
}

+ (instancetype)personWithName:(NSString *)name {
    return [[self alloc] initWithName:name age:0];
}

@end
";

fn parse(src: &str) -> ParsedFile {
    ObjcParser::new().unwrap().parse(src).unwrap()
}

fn decode(src: &str) -> Vec<(u32, u32, u32, u32)> {
    let toks = semantic_tokens_full(&parse(src));
    let mut line = 0u32;
    let mut col = 0u32;
    let mut out = Vec::new();
    for tok in &toks.data {
        line += tok.delta_line;
        col = if tok.delta_line == 0 { col + tok.delta_start } else { tok.delta_start };
        out.push((line, col, tok.length, tok.token_type));
    }
    out
}

#[test]
fn legend_is_nonempty() {
    let legend = semantic_tokens_legend();
    assert!(!legend.token_types.is_empty());
    assert!(!legend.token_modifiers.is_empty());
}

#[test]
fn tokens_for_empty_file() {
    let file = parse("");
    let toks = semantic_tokens_full(&file);
    assert!(toks.data.is_empty());
}

#[test]
fn tokens_for_interface_declaration() {
    let file = parse("@interface MyClass : NSObject\n@end\n");
    let toks = semantic_tokens_full(&file);
    assert!(!toks.data.is_empty());
}

#[test]
fn tokens_are_sorted_by_position() {
    let file = parse("@interface Foo : NSObject\n- (void)bar;\n@end\n");
    let toks = semantic_tokens_full(&file);
    let mut line = 0u32;
    for tok in &toks.data {
        line += tok.delta_line;
        assert!(tok.length > 0, "zero-length token at line {line}");
    }
}

#[test]
fn semantic_tokens_legend_contains_required_types() {
    let legend = semantic_tokens_legend();
    let names: Vec<&str> = legend.token_types.iter().map(|t| t.as_str()).collect();
    for required in &["class", "method", "property", "keyword"] {
        assert!(names.contains(required), "{names:?}");
    }
}

#[test]
fn semantic_tokens_nonempty_for_interface() {
    assert!(!semantic_tokens_full(&parse(PERSON_H)).data.is_empty());
}

#[test]
fn semantic_tokens_nonempty_for_implementation() {
    assert!(!semantic_tokens_full(&parse(PERSON_M)).data.is_empty());
}

#[test]
fn semantic_tokens_all_have_positive_length() {
    for (i, tok) in semantic_tokens_full(&parse(PERSON_H)).data.iter().enumerate() {
        assert!(tok.length > 0, "token #{i} has zero length: {tok:?}");
    }
}

#[test]
fn semantic_tokens_positions_are_monotonically_nondecreasing() {
    let pos = decode(PERSON_H);
    for w in pos.windows(2) {
        assert!((w[1].0, w[1].1) >= (w[0].0, w[0].1), "{w:?}");
    }
}

#[test]
fn semantic_tokens_types_are_valid_indices() {
    let max_type = token_types().len() as u32;
    for tok in semantic_tokens_full(&parse(PERSON_H)).data.iter() {
        assert!(tok.token_type < max_type);
    }
}

#[test]
fn interface_keyword_and_name_tokens() {
    let pos = decode("@interface Foo : NSObject\n@end\n");
    let keyword = token_type_index("keyword").unwrap();
    let variable = token_type_index("variable").unwrap();
    assert_eq!(pos[0], (0, 0, 10, keyword));
    assert!(pos.contains(&(0, 11, 3, variable)), "{pos:?}");
    assert!(pos.contains(&(1, 0, 4, keyword)), "{pos:?}");
}

#[test]
fn multi_line_comment_gives_one_token_per_line() {
    let src = "/* ab\ncdé */\nint x;\n";
    let pos = decode(src);
    let comment = token_type_index("comment").unwrap();
    let lines: Vec<(u32, u32, u32)> = pos.iter().filter(|p| p.3 == comment).map(|p| (p.0, p.1, p.2)).collect();
    assert_eq!(lines, vec![(0, 0, 5), (1, 0, 7)]);
}

#[test]
fn type_indices_and_modifier_bits() {
    assert_eq!(token_type_index("namespace"), Some(0));
    assert_eq!(token_type_index("keyword"), Some(5));
    assert_eq!(token_type_index("function"), Some(12));
    assert_eq!(token_type_index("bogus"), None);
    assert_eq!(modifier_bits(&[]), 0);
    assert_eq!(modifier_bits(&[0, 1]), 3);
    assert_eq!(modifier_bits(&[3, 3]), 8);
    let opts = semantic_tokens_options();
    assert!(opts.full && !opts.range);
}

#[test]
fn collector_encodes_sorted_deltas() {
    let mut c = TokenCollector::new();
    let sp = |row: usize, col: usize, len: usize| NodeSpan {
        start_byte: 0,
        end_byte: len,
        start_row: row,
        start_col: col,
        end_row: row,
        end_col: col + len,
    };
    c.push(sp(2, 4, 3), "abcdefgh", "keyword", &[]);
    c.push(sp(0, 1, 2), "abcdefgh", "type", &[0]);
    c.push(sp(2, 1, 1), "abcdefgh", "bogus", &[]);
    c.push(sp(2, 0, 1), "abcdefgh", "variable", &[]);
    let data = c.encode();
    let packed: Vec<(u32, u32, u32, u32, u32)> = data
        .iter()
        .map(|t| (t.delta_line, t.delta_start, t.length, t.token_type, t.token_modifiers_bitset))
        .collect();
    assert_eq!(packed, vec![(0, 1, 2, 6, 1), (2, 0, 1, 7, 0), (0, 4, 3, 5, 0)]);
}

#[test]
fn declared_names_get_one_token() {
    let pos = decode("#define LIMIT 3\nvoid run(int count);\n");
    let macro_ty = token_type_index("macro").unwrap();
    let function = token_type_index("function").unwrap();
    let parameter = token_type_index("parameter").unwrap();
    let at = |l: u32, c: u32| pos.iter().filter(|p| p.0 == l && p.1 == c).map(|p| p.3).collect::<Vec<u32>>();
    assert_eq!(at(0, 8), vec![macro_ty], "{pos:?}");
    assert_eq!(at(1, 5), vec![function], "{pos:?}");
    assert_eq!(at(1, 13), vec![parameter], "{pos:?}");
}

#[test]
fn empty_comment_lines_get_no_token() {
    let src = "/*\n\nab */\nint x;\n";
    let pos = decode(src);
    let comment = token_type_index("comment").unwrap();
    let lines: Vec<(u32, u32, u32)> = pos.iter().filter(|p| p.3 == comment).map(|p| (p.0, p.1, p.2)).collect();
    assert_eq!(lines, vec![(0, 0, 2), (2, 0, 5)]);
    assert!(pos.iter().all(|p| p.2 > 0));
}
