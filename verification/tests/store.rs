use objc_lsp::store::{
    decode_symbol_row, decode_symbol_rows, file_id_statement, find_by_name_statement, insert_symbol_statement,
    like_prefix_pattern, list_paths_statement, replace_symbols_statements, rowid_of, search_statement,
    transaction_end, upsert_file_statement, IndexStore, SqlParam, SqlValue, StoreError, SymbolInput,
};

fn store() -> IndexStore {
    IndexStore::in_memory().unwrap()
}

fn insert_symbol(
    store: &IndexStore,
    file_id: i64,
    name: &str,
    kind: &str,
    selector: Option<&str>,
    line: u32,
    col: u32,
) {
    let sym = SymbolInput {
        name: name.to_string(),
        kind: kind.to_string(),
        selector: selector.map(|s| s.to_string()),
        line,
        col,
        end_line: line,
        end_col: col,
    };
    store.insert_symbol(file_id, &sym).unwrap();
}

#[test]
fn upsert_file_returns_rowid() {
    let s = store();
    let id = s.upsert_file("/tmp/Foo.m", 1000).unwrap();
    assert!(id > 0);
}

#[test]
fn upsert_file_updates_mtime_on_conflict() {
    let s = store();
    s.upsert_file("/tmp/Foo.m", 1000).unwrap();
    let id2 = s.upsert_file("/tmp/Foo.m", 2000);
    assert!(id2.is_ok(), "second upsert failed: {id2:?}");
}

#[test]
fn find_symbols_empty_store() {
    let s = store();
    let results = s.find_symbols_by_name("Foo").unwrap();
    assert!(results.is_empty());
}

#[test]
fn find_symbols_exact_match() {
    let s = store();
    let fid = s.upsert_file("/src/Foo.m", 0).unwrap();
    insert_symbol(&s, fid, "MyClass", "class", None, 1, 0);
    let results = s.find_symbols_by_name("MyClass").unwrap();
    assert_eq!(results.len(), 1);
    assert_eq!(results[0].name, "MyClass");
    assert_eq!(results[0].kind, "class");
    assert_eq!(results[0].file_path, "/src/Foo.m");
}

#[test]
fn find_symbols_no_partial_match() {
    let s = store();
    let fid = s.upsert_file("/src/Foo.m", 0).unwrap();
    insert_symbol(&s, fid, "MyClass", "class", None, 1, 0);
    let results = s.find_symbols_by_name("My").unwrap();
    assert!(results.is_empty(), "expected no results for partial name, got {results:?}");
}

#[test]
fn find_symbols_multiple_files() {
    let s = store();
    let fid1 = s.upsert_file("/a.m", 0).unwrap();
    let fid2 = s.upsert_file("/b.m", 0).unwrap();
    insert_symbol(&s, fid1, "Duplicate", "class", None, 1, 0);
    insert_symbol(&s, fid2, "Duplicate", "class", None, 1, 0);
    let results = s.find_symbols_by_name("Duplicate").unwrap();
    assert_eq!(results.len(), 2);
}

#[test]
fn find_symbols_with_selector() {
    let s = store();
    let fid = s.upsert_file("/src/Foo.m", 0).unwrap();
    insert_symbol(&s, fid, "initWithName:age:", "method", Some("initWithName:age:"), 5, 0);
    let results = s.find_symbols_by_name("initWithName:age:").unwrap();
    assert_eq!(results.len(), 1);
    assert_eq!(results[0].selector.as_deref(), Some("initWithName:age:"));
}

#[test]
fn search_symbols_prefix_match() {
    let s = store();
    let fid = s.upsert_file("/src/Foo.m", 0).unwrap();
    insert_symbol(&s, fid, "NSString", "class", None, 1, 0);
    insert_symbol(&s, fid, "NSArray", "class", None, 2, 0);
    insert_symbol(&s, fid, "UIView", "class", None, 3, 0);
    let results = s.search_symbols("NS").unwrap();
    assert_eq!(results.len(), 2, "expected 2 NS* results, got {results:?}");
}

#[test]
fn search_symbols_no_match() {
    let s = store();
    let fid = s.upsert_file("/src/Foo.m", 0).unwrap();
    insert_symbol(&s, fid, "Foo", "class", None, 1, 0);
    let results = s.search_symbols("Bar").unwrap();
    assert!(results.is_empty());
}

#[test]
fn search_symbols_empty_query_matches_all() {
    let s = store();
    let fid = s.upsert_file("/src/Foo.m", 0).unwrap();
    insert_symbol(&s, fid, "Alpha", "class", None, 1, 0);
    insert_symbol(&s, fid, "Beta", "class", None, 2, 0);
    let results = s.search_symbols("").unwrap();
    assert_eq!(results.len(), 2);
}

#[test]
fn list_all_file_paths_empty() {
    let s = store();
    let paths = s.list_all_file_paths().unwrap();
    assert!(paths.is_empty());
}

#[test]
fn list_all_file_paths_returns_all() {
    let s = store();
    s.upsert_file("/a.m", 0).unwrap();
    s.upsert_file("/b.m", 0).unwrap();
    s.upsert_file("/c/Foo.m", 0).unwrap();
    let mut paths = s.list_all_file_paths().unwrap();
    paths.sort();
    assert_eq!(paths, vec!["/a.m", "/b.m", "/c/Foo.m"]);
}

// ---------------------------------------------------------------------------
// Decoding and the store's other operations
// ---------------------------------------------------------------------------

fn row(sel: SqlValue, line: i64) -> Vec<SqlValue> {
    vec![
        SqlValue::Integer(7),
        SqlValue::Text("/src/Foo.m".to_string()),
        SqlValue::Text("foo".to_string()),
        SqlValue::Text("method".to_string()),
        sel,
        SqlValue::Integer(line),
        SqlValue::Integer(4),
    ]
}

#[test]
fn decode_row_reads_every_column() {
    let rec = decode_symbol_row(&row(SqlValue::Text("foo".to_string()), 12)).unwrap();
    assert_eq!(rec.id, 7);
    assert_eq!(rec.file_path, "/src/Foo.m");
    assert_eq!(rec.name, "foo");
    assert_eq!(rec.kind, "method");
    assert_eq!(rec.selector.as_deref(), Some("foo"));
    assert_eq!(rec.line, 12);
    assert_eq!(rec.col, 4);
    let rec = decode_symbol_row(&row(SqlValue::Null, 12)).unwrap();
    assert_eq!(rec.selector, None);
}

#[test]
fn decode_row_rejects_out_of_range_line() {
    let e = decode_symbol_row(&row(SqlValue::Null, -1)).unwrap_err();
    assert!(matches!(e, StoreError::OutOfRange { column: 5, value: -1 }));
    let e = decode_symbol_row(&row(SqlValue::Null, 1 << 32)).unwrap_err();
    assert!(matches!(e, StoreError::OutOfRange { column: 5, .. }));
}

#[test]
fn decode_row_rejects_mistyped_and_missing_columns() {
    let e = decode_symbol_row(&row(SqlValue::Integer(3), 1)).unwrap_err();
    assert!(matches!(e, StoreError::InvalidColumnType { column: 4 }));
    let mut short = row(SqlValue::Null, 1);
    short.truncate(3);
    let e = decode_symbol_row(&short).unwrap_err();
    assert!(matches!(e, StoreError::MissingColumn { column: 3 }));
    let rows = vec![row(SqlValue::Null, 1), row(SqlValue::Real, 1)];
    let e = decode_symbol_rows(&rows).unwrap_err();
    assert!(matches!(e, StoreError::InvalidColumnType { column: 4 }));
    let e = decode_symbol_row(&row(SqlValue::Blob(vec![1, 2]), 1)).unwrap_err();
    assert!(matches!(e, StoreError::InvalidColumnType { column: 4 }));
}

#[test]
fn like_pattern_appends_wildcard() {
    assert_eq!(like_prefix_pattern("NS"), "NS%");
    assert_eq!(like_prefix_pattern(""), "%");
}

#[test]
fn index_file_symbols_replaces_old_symbols() {
    let s = store();
    let sym = |name: &str| SymbolInput {
        name: name.to_string(),
        kind: "class".to_string(),
        selector: None,
        line: 1,
        col: 0,
        end_line: 1,
        end_col: 0,
    };
    s.index_file_symbols("/a.m", 1, &[sym("Old")]).unwrap();
    s.index_file_symbols("/a.m", 2, &[sym("New"), sym("Other")]).unwrap();
    assert!(s.find_symbols_by_name("Old").unwrap().is_empty());
    assert_eq!(s.find_symbols_by_name("New").unwrap().len(), 1);
    assert_eq!(s.list_all_file_paths().unwrap(), vec!["/a.m"]);
}

#[test]
fn upsert_of_a_known_path_returns_its_row() {
    let s = store();
    let a = s.upsert_file("/a.m", 1).unwrap();
    let b = s.upsert_file("/b.m", 1).unwrap();
    assert_ne!(a, b);
    assert_eq!(s.upsert_file("/a.m", 2).unwrap(), a);
    assert_eq!(s.upsert_file("/b.m", 3).unwrap(), b);
}

fn text_of(p: &SqlParam) -> &str {
    match p {
        SqlParam::Text(t) => t.as_str(),
        _ => panic!("not a text parameter"),
    }
}

#[test]
fn query_statements_fix_text_and_parameters() {
    let f = find_by_name_statement("Foo");
    assert!(f.sql.ends_with("WHERE s.name = ?1"));
    assert_eq!(f.params.len(), 1);
    assert_eq!(text_of(&f.params[0]), "Foo");
    let s = search_statement("NS");
    assert!(s.sql.contains("WHERE s.name LIKE ?1") && s.sql.ends_with("LIMIT 100"));
    assert_eq!(text_of(&s.params[0]), "NS%");
    let l = list_paths_statement();
    assert_eq!(l.sql, "SELECT path FROM files ORDER BY path");
    assert!(l.params.is_empty());
    let u = upsert_file_statement("/a.m", 7);
    assert!(u.sql.starts_with("INSERT INTO files(path, mtime)"));
    assert_eq!(text_of(&u.params[0]), "/a.m");
    assert!(matches!(u.params[1], SqlParam::Integer(7)));
    let q = file_id_statement("/a.m");
    assert_eq!(q.sql, "SELECT id FROM files WHERE path = ?1");
    assert_eq!(text_of(&q.params[0]), "/a.m");
}

#[test]
fn replace_statements_delete_then_insert_in_order() {
    let syms = vec![
        SymbolInput { name: "A".into(), kind: "class".into(), selector: None, line: 1, col: 2, end_line: 3, end_col: 4 },
        SymbolInput { name: "b".into(), kind: "method".into(), selector: Some("b:".into()), line: 5, col: 0, end_line: 5, end_col: 9 },
    ];
    let st = replace_symbols_statements(42, &syms);
    assert_eq!(st.len(), 3);
    assert_eq!(st[0].sql, "DELETE FROM symbols WHERE file_id = ?1");
    assert!(matches!(st[0].params[..], [SqlParam::Integer(42)]));
    assert!(st[1].sql.starts_with("INSERT INTO symbols"));
    assert_eq!(text_of(&st[1].params[1]), "A");
    assert!(matches!(st[1].params[3], SqlParam::Null));
    assert_eq!(text_of(&st[2].params[1]), "b");
    assert_eq!(text_of(&st[2].params[3]), "b:");
    assert!(matches!(st[2].params[4], SqlParam::Integer(5)));
    let one = insert_symbol_statement(1, &syms[0]);
    assert!(matches!(one.params[6], SqlParam::Integer(3)));
}

#[test]
fn rowid_read_back_from_rows() {
    assert_eq!(rowid_of(&vec![vec![SqlValue::Integer(9)], vec![SqlValue::Integer(3)]]).unwrap(), 9);
    assert!(matches!(rowid_of(&vec![]), Err(StoreError::RowMissing)));
    assert!(matches!(rowid_of(&vec![vec![SqlValue::Text("x".into())]]), Err(StoreError::InvalidColumnType { column: 0 })));
    assert!(matches!(rowid_of(&vec![vec![]]), Err(StoreError::MissingColumn { column: 0 })));
    assert_eq!(transaction_end(true), "COMMIT");
    assert_eq!(transaction_end(false), "ROLLBACK");
}
