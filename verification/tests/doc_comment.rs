use objc_lsp::doc_comment::{clean_raw_comment, convert_doc_tag, extract_preceding_comment};

#[test]
fn cleans_apple_headerdoc_block() {
    let raw = "/*!\n * @abstract Returns the name.\n * @param index The index.\n * @return The name string.\n */";
    let result = clean_raw_comment(raw);
    assert!(result.contains("Returns the name"), "got: {result}");
    assert!(result.contains("Parameter"), "got: {result}");
    assert!(result.contains("**Returns**"), "got: {result}");
}

#[test]
fn cleans_triple_slash_comments() {
    let result = clean_raw_comment("/// First line.\n/// Second line.");
    assert!(result.contains("First line"), "got: {result}");
    assert!(result.contains("Second line"), "got: {result}");
}

#[test]
fn empty_raw_returns_empty() {
    assert_eq!(clean_raw_comment(""), "");
}

#[test]
fn converts_param_tag() {
    let result = convert_doc_tag("@param name The name of the object.");
    assert!(result.contains("**Parameter**"), "got: {result}");
    assert!(result.contains("`name`"), "got: {result}");
}

#[test]
fn converts_return_tag() {
    let result = convert_doc_tag("@return The resulting value.");
    assert!(result.contains("**Returns**"), "got: {result}");
}

#[test]
fn extract_preceding_comment_block() {
    let lines = vec!["/*!", " * @abstract A view controller.", " */", "@interface UIViewController : UIResponder"];
    let result = extract_preceding_comment(&lines, 3);
    assert!(result.is_some());
    assert!(result.unwrap().contains("A view controller"));
}

#[test]
fn extract_preceding_comment_line_style() {
    let lines = vec![
        "/// Presents content.",
        "/// Use this method to show content.",
        "- (void)presentViewController:(UIViewController *)vc;",
    ];
    let result = extract_preceding_comment(&lines, 2);
    assert!(result.is_some());
    assert!(result.unwrap().contains("Presents content"));
}

#[test]
fn extract_preceding_comment_none_when_blank_gap() {
    let lines = vec!["/// Some comment.", "", "- (void)foo;"];
    assert!(extract_preceding_comment(&lines, 2).is_none());
}

#[test]
fn headerdoc_block_is_cleaned_exactly() {
    let raw = "/*!\n * @abstract Returns the name.\n * @param index The index.\n * @return The name string.\n */";
    assert_eq!(
        clean_raw_comment(raw),
        "Returns the name.\n**Parameter** `index`: The index.\n**Returns**: The name string."
    );
}

#[test]
fn doc_tags_exact_forms() {
    assert_eq!(convert_doc_tag("@param name"), "**Parameter** `name`");
    assert_eq!(convert_doc_tag("\\param x   spaced  "), "**Parameter** `x`: spaced");
    assert_eq!(convert_doc_tag("\\return  ok "), "**Returns**: ok");
    assert_eq!(convert_doc_tag("@discussion Long text. "), "Long text.");
    assert_eq!(convert_doc_tag("plain text"), "plain text");
}

#[test]
fn closers_and_stars_are_stripped() {
    assert_eq!(clean_raw_comment("/** Short. */*/"), "Short.");
    assert_eq!(clean_raw_comment("*bare star\n   \n//! bang"), "bare star\nbang");
}

#[test]
fn first_line_and_non_comment_lines() {
    let lines = vec!["- (void)a;", "- (void)b;"];
    assert!(extract_preceding_comment(&lines, 0).is_none());
    assert!(extract_preceding_comment(&lines, 1).is_none());
    let lines = vec!["int x;", " *  Body */", "- (void)c;"];
    assert_eq!(extract_preceding_comment(&lines, 2).as_deref(), Some("int x;\nBody"));
}
