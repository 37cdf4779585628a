//! Persistent index store backed by SQLite.
//!
//! Caches cross-file symbol data so that workspace-wide queries
//! (find-references, workspace/symbol) need no full re-parse.  The
//! database belongs to `rusqlite`; each call into it sits behind a small
//! wrapper that hands plain values in and out.  What comes back from the
//! database is decoded here, column by column, into [`SymbolRecord`]s,
//! with the same errors `rusqlite` gives for a mistyped column.

use vstd::prelude::*;

use rusqlite::types::Value;

use crate::text::to_owned_string;

verus! {

#[verifier::external_type_specification]
#[verifier::external_body]
pub struct ExConnection(rusqlite::Connection);

#[verifier::external_type_specification]
#[verifier::external_body]
pub struct ExSqlError(rusqlite::Error);

/// A value read from a result column.  A floating-point value, which no
/// column of this store holds, is read as `Real` without its number.
pub enum SqlValue {
    Null,
    Integer(i64),
    Text(String),
    Blob(Vec<u8>),
    Real,
}

/// A value bound to a statement parameter.
pub enum SqlParam {
    Null,
    Integer(i64),
    Text(String),
}

/// Why a store operation failed.
#[derive(Debug)]
pub enum StoreError {
    /// SQLite refused the statement, or the connection failed.
    Sql(rusqlite::Error),
    /// A result row has fewer columns than expected.
    MissingColumn { column: usize },
    /// A result column holds a value of the wrong type.
    InvalidColumnType { column: usize },
    /// An integer column does not fit the field it is read into.
    OutOfRange { column: usize, value: i64 },
    /// A row that was just written could not be read back.
    RowMissing,
}

/// A lightweight symbol record returned from the store.
#[derive(Debug, Clone)]
pub struct SymbolRecord {
    pub id: i64,
    pub file_path: String,
    pub name: String,
    pub kind: String,
    pub selector: Option<String>,
    pub line: u32,
    pub col: u32,
}

/// A symbol to be inserted in the store (see `index_file_symbols`).
#[derive(Debug, Clone)]
pub struct SymbolInput {
    pub name: String,
    pub kind: String,
    pub selector: Option<String>,
    pub line: u32,
    pub col: u32,
    pub end_line: u32,
    pub end_col: u32,
}

/// The on-disk symbol/reference database.
pub struct IndexStore {
    conn: rusqlite::Connection,
}

// ---------------------------------------------------------------------------
// Calls into rusqlite
// ---------------------------------------------------------------------------

/// `Connection::open` on the file at `path`.
#[verifier::external_body]
fn sql_open(path: &str) -> Result<rusqlite::Connection, rusqlite::Error> {
    rusqlite::Connection::open(std::path::Path::new(path))
}

/// `Connection::open_in_memory`.
#[verifier::external_body]
fn sql_open_in_memory() -> Result<rusqlite::Connection, rusqlite::Error> {
    rusqlite::Connection::open_in_memory()
}

/// `Connection::execute_batch`: runs each statement of `sql` in turn.
#[verifier::external_body]
fn sql_execute_batch(conn: &rusqlite::Connection, sql: &str) -> Result<(), rusqlite::Error> {
    conn.execute_batch(sql)
}

/// `Connection::execute` with positional parameters; on success the
/// number of rows changed.
#[verifier::external_body]
fn sql_execute(conn: &rusqlite::Connection, sql: &str, params: &Vec<SqlParam>) -> Result<
    usize,
    rusqlite::Error,
> {
    let values = params.iter().map(|p| match p {
        SqlParam::Null => Value::Null,
        SqlParam::Integer(v) => Value::Integer(*v),
        SqlParam::Text(s) => Value::Text(s.clone()),
    });
    conn.execute(sql, rusqlite::params_from_iter(values))
}

/// `Connection::last_insert_rowid`.
#[verifier::external_body]
fn sql_last_insert_rowid(conn: &rusqlite::Connection) -> i64 {
    conn.last_insert_rowid()
}

/// `Connection::prepare_cached` and `Statement::query_map`: each result
/// row read as its first `columns` values.  `Row::get` fails on a
/// column index past the row's end, so every row that comes back has
/// exactly `columns` values.
#[verifier::external_body]
fn sql_query(conn: &rusqlite::Connection, sql: &str, params: &Vec<SqlParam>, columns: usize) -> (r:
    Result<Vec<Vec<SqlValue>>, rusqlite::Error>)
    ensures
        r matches Ok(rows) ==> forall|i: int| 0 <= i < rows.len() ==> #[trigger] rows[i].len()
            == columns,
{
    let values = params.iter().map(|p| match p {
        SqlParam::Null => Value::Null,
        SqlParam::Integer(v) => Value::Integer(*v),
        SqlParam::Text(s) => Value::Text(s.clone()),
    });
    let mut stmt = conn.prepare_cached(sql)?;
    let rows = stmt.query_map(rusqlite::params_from_iter(values), |row| (0..columns).map(|i| row.get(i).map(|v| match v {
        Value::Null => SqlValue::Null,
        Value::Integer(n) => SqlValue::Integer(n),
        Value::Text(t) => SqlValue::Text(t),
        Value::Blob(b) => SqlValue::Blob(b),
        Value::Real(_) => SqlValue::Real,
    })).collect())?;
    rows.collect()
}

// ---------------------------------------------------------------------------
// Decoding result rows
// ---------------------------------------------------------------------------

/// The fault of column `i` read as an integer.
pub open spec fn integer_fault(row: Seq<SqlValue>, i: int) -> Option<StoreError> {
    if i >= row.len() {
        Some(StoreError::MissingColumn { column: i as usize })
    } else if row[i] is Integer {
        None
    } else {
        Some(StoreError::InvalidColumnType { column: i as usize })
    }
}

/// The fault of column `i` read as a `u32`.
pub open spec fn u32_fault(row: Seq<SqlValue>, i: int) -> Option<StoreError> {
    if i >= row.len() {
        Some(StoreError::MissingColumn { column: i as usize })
    } else {
        match row[i] {
            SqlValue::Integer(v) => if 0 <= v <= u32::MAX {
                None
            } else {
                Some(StoreError::OutOfRange { column: i as usize, value: v })
            },
            _ => Some(StoreError::InvalidColumnType { column: i as usize }),
        }
    }
}

/// The fault of column `i` read as text.
pub open spec fn text_fault(row: Seq<SqlValue>, i: int) -> Option<StoreError> {
    if i >= row.len() {
        Some(StoreError::MissingColumn { column: i as usize })
    } else if row[i] is Text {
        None
    } else {
        Some(StoreError::InvalidColumnType { column: i as usize })
    }
}

/// The fault of column `i` read as optional text (`NULL` is `None`).
pub open spec fn opt_text_fault(row: Seq<SqlValue>, i: int) -> Option<StoreError> {
    if i >= row.len() {
        Some(StoreError::MissingColumn { column: i as usize })
    } else if row[i] is Text || row[i] is Null {
        None
    } else {
        Some(StoreError::InvalidColumnType { column: i as usize })
    }
}

/// The first fault of a symbol row `(id, path, name, kind, selector,
/// line, col)`, read column by column from the left.
pub open spec fn symbol_row_fault(row: Seq<SqlValue>) -> Option<StoreError> {
    if integer_fault(row, 0) is Some {
        integer_fault(row, 0)
    } else if text_fault(row, 1) is Some {
        text_fault(row, 1)
    } else if text_fault(row, 2) is Some {
        text_fault(row, 2)
    } else if text_fault(row, 3) is Some {
        text_fault(row, 3)
    } else if opt_text_fault(row, 4) is Some {
        opt_text_fault(row, 4)
    } else if u32_fault(row, 5) is Some {
        u32_fault(row, 5)
    } else {
        u32_fault(row, 6)
    }
}

pub open spec fn int_of(v: SqlValue) -> int {
    match v {
        SqlValue::Integer(i) => i as int,
        _ => 0,
    }
}

pub open spec fn text_of(v: SqlValue) -> Seq<char> {
    match v {
        SqlValue::Text(s) => s@,
        _ => Seq::empty(),
    }
}

/// `rec` holds the values of the fault-free symbol row `row`.
pub open spec fn record_of_row(row: Seq<SqlValue>, rec: SymbolRecord) -> bool {
    &&& symbol_row_fault(row) is None
    &&& rec.id == int_of(row[0])
    &&& rec.file_path@ == text_of(row[1])
    &&& rec.name@ == text_of(row[2])
    &&& rec.kind@ == text_of(row[3])
    &&& match rec.selector {
        Some(s) => row[4] is Text && s@ == text_of(row[4]),
        None => row[4] is Null,
    }
    &&& rec.line == int_of(row[5])
    &&& rec.col == int_of(row[6])
}

/// Each row decodes to the record at the same place.
pub open spec fn records_of_rows(rows: Seq<Vec<SqlValue>>, recs: Seq<SymbolRecord>) -> bool {
    &&& rows.len() == recs.len()
    &&& forall|i: int| 0 <= i < rows.len() ==> record_of_row(#[trigger] rows[i]@, recs[i])
}

/// The fault of the first faulty row, if any.
pub open spec fn first_row_fault(rows: Seq<Vec<SqlValue>>) -> Option<StoreError>
    decreases rows.len(),
{
    if rows.len() == 0 {
        None
    } else if symbol_row_fault(rows[0]@) is Some {
        symbol_row_fault(rows[0]@)
    } else {
        first_row_fault(rows.drop_first())
    }
}

fn get_integer(row: &Vec<SqlValue>, i: usize) -> (r: Result<i64, StoreError>)
    ensures
        match r {
            Ok(v) => integer_fault(row@, i as int) is None && int_of(row@[i as int]) == v,
            Err(e) => integer_fault(row@, i as int) == Some(e),
        },
{
    if i >= row.len() {
        return Err(StoreError::MissingColumn { column: i });
    }
    match &row[i] {
        SqlValue::Integer(v) => Ok(*v),
        _ => Err(StoreError::InvalidColumnType { column: i }),
    }
}

fn get_u32(row: &Vec<SqlValue>, i: usize) -> (r: Result<u32, StoreError>)
    ensures
        match r {
            Ok(v) => u32_fault(row@, i as int) is None && int_of(row@[i as int]) == v,
            Err(e) => u32_fault(row@, i as int) == Some(e),
        },
{
    if i >= row.len() {
        return Err(StoreError::MissingColumn { column: i });
    }
    match &row[i] {
        SqlValue::Integer(v) => {
            if 0 <= *v && *v <= 0xffff_ffffi64 {
                Ok(*v as u32)
            } else {
                Err(StoreError::OutOfRange { column: i, value: *v })
            }
        },
        _ => Err(StoreError::InvalidColumnType { column: i }),
    }
}

fn get_text(row: &Vec<SqlValue>, i: usize) -> (r: Result<String, StoreError>)
    ensures
        match r {
            Ok(s) => text_fault(row@, i as int) is None && text_of(row@[i as int]) == s@,
            Err(e) => text_fault(row@, i as int) == Some(e),
        },
{
    if i >= row.len() {
        return Err(StoreError::MissingColumn { column: i });
    }
    match &row[i] {
        SqlValue::Text(s) => Ok(s.clone()),
        _ => Err(StoreError::InvalidColumnType { column: i }),
    }
}

fn get_opt_text(row: &Vec<SqlValue>, i: usize) -> (r: Result<Option<String>, StoreError>)
    ensures
        match r {
            Ok(Some(s)) => opt_text_fault(row@, i as int) is None && row@[i as int] is Text
                && text_of(row@[i as int]) == s@,
            Ok(None) => opt_text_fault(row@, i as int) is None && row@[i as int] is Null,
            Err(e) => opt_text_fault(row@, i as int) == Some(e),
        },
{
    if i >= row.len() {
        return Err(StoreError::MissingColumn { column: i });
    }
    match &row[i] {
        SqlValue::Text(s) => Ok(Some(s.clone())),
        SqlValue::Null => Ok(None),
        _ => Err(StoreError::InvalidColumnType { column: i }),
    }
}

/// Decodes a result row `(id, path, name, kind, selector, line, col)`.
/// The first column, from the left, that is missing or holds a value of
/// the wrong type or range gives the error.
pub fn decode_symbol_row(row: &Vec<SqlValue>) -> (r: Result<SymbolRecord, StoreError>)
    ensures
        match r {
            Ok(rec) => record_of_row(row@, rec),
            Err(e) => symbol_row_fault(row@) == Some(e),
        },
{
    let id = match get_integer(row, 0) {
        Ok(v) => v,
        Err(e) => return Err(e),
    };
    let file_path = match get_text(row, 1) {
        Ok(v) => v,
        Err(e) => return Err(e),
    };
    let name = match get_text(row, 2) {
        Ok(v) => v,
        Err(e) => return Err(e),
    };
    let kind = match get_text(row, 3) {
        Ok(v) => v,
        Err(e) => return Err(e),
    };
    let selector = match get_opt_text(row, 4) {
        Ok(v) => v,
        Err(e) => return Err(e),
    };
    let line = match get_u32(row, 5) {
        Ok(v) => v,
        Err(e) => return Err(e),
    };
    let col = match get_u32(row, 6) {
        Ok(v) => v,
        Err(e) => return Err(e),
    };
    Ok(SymbolRecord { id, file_path, name, kind, selector, line, col })
}

/// Decodes every row; the first faulty row gives the error.
pub fn decode_symbol_rows(rows: &Vec<Vec<SqlValue>>) -> (r: Result<Vec<SymbolRecord>, StoreError>)
    ensures
        match r {
            Ok(recs) => first_row_fault(rows@) is None && records_of_rows(rows@, recs@),
            Err(e) => first_row_fault(rows@) == Some(e),
        },
{
    let mut recs: Vec<SymbolRecord> = Vec::new();
    let mut i: usize = 0;
    assert(rows@.skip(0) =~= rows@);
    while i < rows.len()
        invariant
            i <= rows.len(),
            records_of_rows(rows@.take(i as int), recs@),
            first_row_fault(rows@) == first_row_fault(rows@.skip(i as int)),
        decreases rows.len() - i,
    {
        proof {
            assert(rows@.skip(i as int).drop_first() =~= rows@.skip(i + 1));
            assert(rows@.skip(i as int)[0] == rows@[i as int]);
        }
        match decode_symbol_row(&rows[i]) {
            Ok(rec) => {
                recs.push(rec);
                assert(rows@.take(i + 1).drop_last() =~= rows@.take(i as int));
            },
            Err(e) => {
                return Err(e);
            },
        }
        i = i + 1;
    }
    assert(rows@.take(i as int) =~= rows@);
    assert(rows@.skip(i as int).len() == 0);
    Ok(recs)
}

/// `paths` are the texts of the one-column rows `rows`, in order.
pub open spec fn paths_of_rows(rows: Seq<Vec<SqlValue>>, paths: Seq<String>) -> bool {
    &&& rows.len() == paths.len()
    &&& forall|i: int|
        0 <= i < rows.len() ==> (#[trigger] rows[i])@.len() == 1 && rows[i]@[0] is Text && paths[i]@
            == text_of(rows[i]@[0])
}

/// Reads the first column of each row as text.
fn decode_text_rows(rows: &Vec<Vec<SqlValue>>) -> (r: Result<Vec<String>, StoreError>)
    ensures
        match r {
            Ok(v) => v.len() == rows.len() && forall|i: int|
                0 <= i < rows.len() ==> text_fault(#[trigger] rows[i]@, 0) is None && v[i]@
                    == text_of(rows[i]@[0]),
            Err(e) => exists|i: int| 0 <= i < rows.len() && text_fault(#[trigger] rows[i]@, 0) == Some(e),
        },
{
    let mut out: Vec<String> = Vec::new();
    let mut i: usize = 0;
    while i < rows.len()
        invariant
            i <= rows.len(),
            out.len() == i,
            forall|j: int|
                0 <= j < i ==> text_fault(#[trigger] rows[j]@, 0) is None && out[j]@ == text_of(
                    rows[j]@[0],
                ),
        decreases rows.len() - i,
    {
        match get_text(&rows[i], 0) {
            Ok(s) => out.push(s),
            Err(e) => return Err(e),
        }
        i = i + 1;
    }
    Ok(out)
}

/// The `LIKE` pattern that matches every name beginning with `query`.
pub fn like_prefix_pattern(query: &str) -> (p: String)
    ensures
        p@ == query@.push('%'),
{
    let mut p = to_owned_string(query);
    crate::text::push_char(&mut p, '%');
    p
}

/// The parameters of a symbol insert: file id, name, kind, selector
/// (`NULL` when absent), line, column, end line, end column.
fn symbol_param_values(file_id: i64, sym: &SymbolInput) -> (v: Vec<SqlParam>)
    ensures
        symbol_params(v@, file_id, *sym),
{
    let sel = match &sym.selector {
        Some(s) => SqlParam::Text(s.clone()),
        None => SqlParam::Null,
    };
    let mut v: Vec<SqlParam> = Vec::new();
    v.push(SqlParam::Integer(file_id));
    v.push(SqlParam::Text(sym.name.clone()));
    v.push(SqlParam::Text(sym.kind.clone()));
    v.push(sel);
    v.push(SqlParam::Integer(sym.line as i64));
    v.push(SqlParam::Integer(sym.col as i64));
    v.push(SqlParam::Integer(sym.end_line as i64));
    v.push(SqlParam::Integer(sym.end_col as i64));
    v
}

/// A statement for SQLite with its positional parameters.
pub struct SqlStatement {
    pub sql: String,
    pub params: Vec<SqlParam>,
}

/// The symbols with exactly the name `?1`, with their file's path.
pub const FIND_BY_NAME_SQL: &'static str = "SELECT s.id, f.path, s.name, s.kind, s.selector, s.line, s.col FROM symbols s JOIN files f ON f.id = s.file_id WHERE s.name = ?1";

/// The symbols whose name matches the `LIKE` pattern `?1`, at most 100,
/// with their file's path.
pub const SEARCH_SQL: &'static str = "SELECT s.id, f.path, s.name, s.kind, s.selector, s.line, s.col FROM symbols s JOIN files f ON f.id = s.file_id WHERE s.name LIKE ?1 LIMIT 100";

/// The paths of all files, in path order.
pub const LIST_PATHS_SQL: &'static str = "SELECT path FROM files ORDER BY path";

/// Inserts the file `?1` with modification time `?2`, or sets the
/// modification time of the file with that path.
pub const UPSERT_FILE_SQL: &'static str = "INSERT INTO files(path, mtime) VALUES(?1, ?2) ON CONFLICT(path) DO UPDATE SET mtime = excluded.mtime";

/// The rowid of the file with path `?1`.
pub const FILE_ID_SQL: &'static str = "SELECT id FROM files WHERE path = ?1";

/// Deletes the symbols of the file with rowid `?1`.
pub const DELETE_SYMBOLS_SQL: &'static str = "DELETE FROM symbols WHERE file_id = ?1";

/// Inserts one symbol: file id, name, kind, selector, line, column, end
/// line, end column.
pub const INSERT_SYMBOL_SQL: &'static str = "INSERT INTO symbols(file_id,name,kind,selector,line,col,end_line,end_col) VALUES(?1,?2,?3,?4,?5,?6,?7,?8)";

/// `p` is the text parameter `t`.
pub open spec fn text_param(p: SqlParam, t: Seq<char>) -> bool {
    p matches SqlParam::Text(s) && s@ == t
}

/// `ps` are the parameters of a symbol insert (see `INSERT_SYMBOL_SQL`).
pub open spec fn symbol_params(ps: Seq<SqlParam>, file_id: i64, sym: SymbolInput) -> bool {
    &&& ps.len() == 8
    &&& ps[0] == SqlParam::Integer(file_id)
    &&& text_param(ps[1], sym.name@)
    &&& text_param(ps[2], sym.kind@)
    &&& match sym.selector {
        Some(sel) => text_param(ps[3], sel@),
        None => ps[3] is Null,
    }
    &&& ps[4] == SqlParam::Integer(sym.line as i64)
    &&& ps[5] == SqlParam::Integer(sym.col as i64)
    &&& ps[6] == SqlParam::Integer(sym.end_line as i64)
    &&& ps[7] == SqlParam::Integer(sym.end_col as i64)
}

/// `st` inserts `sym` for the file with rowid `file_id`.
pub open spec fn is_symbol_insert(st: SqlStatement, file_id: i64, sym: SymbolInput) -> bool {
    st.sql@ == INSERT_SYMBOL_SQL@ && symbol_params(st.params@, file_id, sym)
}

/// The statement that finds the symbols named exactly `name`.
pub fn find_by_name_statement(name: &str) -> (st: SqlStatement)
    ensures
        st.sql@ == FIND_BY_NAME_SQL@,
        st.params.len() == 1,
        text_param(st.params@[0], name@),
{
    let mut params: Vec<SqlParam> = Vec::new();
    params.push(SqlParam::Text(to_owned_string(name)));
    SqlStatement { sql: to_owned_string(FIND_BY_NAME_SQL), params }
}

/// The statement that finds at most 100 symbols whose name begins with
/// `query`.
pub fn search_statement(query: &str) -> (st: SqlStatement)
    ensures
        st.sql@ == SEARCH_SQL@,
        st.params.len() == 1,
        text_param(st.params@[0], query@.push('%')),
{
    let mut params: Vec<SqlParam> = Vec::new();
    params.push(SqlParam::Text(like_prefix_pattern(query)));
    SqlStatement { sql: to_owned_string(SEARCH_SQL), params }
}

/// The statement that lists the paths of all files.
pub fn list_paths_statement() -> (st: SqlStatement)
    ensures
        st.sql@ == LIST_PATHS_SQL@,
        st.params.len() == 0,
{
    SqlStatement { sql: to_owned_string(LIST_PATHS_SQL), params: Vec::new() }
}

/// The statement that inserts the file `path`, or updates its
/// modification time.
pub fn upsert_file_statement(path: &str, mtime: i64) -> (st: SqlStatement)
    ensures
        st.sql@ == UPSERT_FILE_SQL@,
        st.params.len() == 2,
        text_param(st.params@[0], path@),
        st.params@[1] == SqlParam::Integer(mtime),
{
    let mut params: Vec<SqlParam> = Vec::new();
    params.push(SqlParam::Text(to_owned_string(path)));
    params.push(SqlParam::Integer(mtime));
    SqlStatement { sql: to_owned_string(UPSERT_FILE_SQL), params }
}

/// The statement that reads back the rowid of the file `path`.
pub fn file_id_statement(path: &str) -> (st: SqlStatement)
    ensures
        st.sql@ == FILE_ID_SQL@,
        st.params.len() == 1,
        text_param(st.params@[0], path@),
{
    let mut params: Vec<SqlParam> = Vec::new();
    params.push(SqlParam::Text(to_owned_string(path)));
    SqlStatement { sql: to_owned_string(FILE_ID_SQL), params }
}

/// The statement that inserts `sym` for the file with rowid `file_id`.
pub fn insert_symbol_statement(file_id: i64, sym: &SymbolInput) -> (st: SqlStatement)
    ensures
        is_symbol_insert(st, file_id, *sym),
{
    SqlStatement { sql: to_owned_string(INSERT_SYMBOL_SQL), params: symbol_param_values(file_id, sym) }
}

/// The statements that replace the symbols of the file with rowid
/// `file_id` by `symbols`: the delete of its old symbols, then one insert
/// per symbol, in order.
pub fn replace_symbols_statements(file_id: i64, symbols: &[SymbolInput]) -> (r: Vec<SqlStatement>)
    ensures
        r.len() == symbols.len() + 1,
        r@[0].sql@ == DELETE_SYMBOLS_SQL@,
        r@[0].params@ == seq![SqlParam::Integer(file_id)],
        forall|i: int| 0 <= i < symbols.len() ==> is_symbol_insert(#[trigger] r@[i + 1], file_id, symbols@[i]),
{
    let mut params: Vec<SqlParam> = Vec::new();
    params.push(SqlParam::Integer(file_id));
    assert(params@ =~= seq![SqlParam::Integer(file_id)]);
    let mut r: Vec<SqlStatement> = Vec::new();
    r.push(SqlStatement { sql: to_owned_string(DELETE_SYMBOLS_SQL), params });
    let mut i: usize = 0;
    while i < symbols.len()
        invariant
            i <= symbols.len(),
            r.len() == i + 1,
            r@[0].sql@ == DELETE_SYMBOLS_SQL@,
            r@[0].params@ == seq![SqlParam::Integer(file_id)],
            forall|k: int| 0 <= k < i ==> is_symbol_insert(#[trigger] r@[k + 1], file_id, symbols@[k]),
        decreases symbols.len() - i,
    {
        let st = insert_symbol_statement(file_id, &symbols[i]);
        let ghost before = r@;
        r.push(st);
        assert(forall|k: int| 0 <= k <= i ==> r@[k] == before.push(st)[k]);
        i = i + 1;
    }
    r
}

/// The rowid that the rows read back for a file give: that of the first
/// row; `RowMissing` when there is none.
pub open spec fn rowid_spec(rows: Seq<Vec<SqlValue>>) -> Result<i64, StoreError> {
    if rows.len() == 0 {
        Err(StoreError::RowMissing)
    } else if rows[0]@.len() == 0 {
        Err(StoreError::MissingColumn { column: 0 })
    } else {
        match rows[0]@[0] {
            SqlValue::Integer(id) => Ok(id),
            _ => Err(StoreError::InvalidColumnType { column: 0 }),
        }
    }
}

/// Reads the rowid from the rows of `FILE_ID_SQL` (see `rowid_spec`).
pub fn rowid_of(rows: &Vec<Vec<SqlValue>>) -> (r: Result<i64, StoreError>)
    ensures
        r == rowid_spec(rows@),
{
    if rows.len() == 0 {
        return Err(StoreError::RowMissing);
    }
    if rows[0].len() == 0 {
        return Err(StoreError::MissingColumn { column: 0 });
    }
    match &rows[0][0] {
        SqlValue::Integer(id) => Ok(*id),
        _ => Err(StoreError::InvalidColumnType { column: 0 }),
    }
}

/// How a transaction ends: `COMMIT` when its work succeeded, `ROLLBACK`
/// otherwise.
pub fn transaction_end(work_ok: bool) -> (sql: &'static str)
    ensures
        sql@ == (if work_ok {
            "COMMIT"@
        } else {
            "ROLLBACK"@
        }),
{
    if work_ok {
        "COMMIT"
    } else {
        "ROLLBACK"
    }
}

/// Creates all tables if they do not yet exist.
pub fn create_tables(conn: &rusqlite::Connection) -> (r: Result<(), StoreError>)
    ensures
        r matches Err(e) ==> (e is Sql),
{
    match sql_execute_batch(
        conn,
        "
        PRAGMA journal_mode = WAL;
        PRAGMA foreign_keys = ON;

        CREATE TABLE IF NOT EXISTS files (
            id       INTEGER PRIMARY KEY,
            path     TEXT    NOT NULL UNIQUE,
            mtime    INTEGER NOT NULL DEFAULT 0,
            indexed  INTEGER NOT NULL DEFAULT 0
        );

        CREATE TABLE IF NOT EXISTS symbols (
            id        INTEGER PRIMARY KEY,
            file_id   INTEGER NOT NULL REFERENCES files(id) ON DELETE CASCADE,
            name      TEXT    NOT NULL,
            kind      TEXT    NOT NULL,
            selector  TEXT,
            line      INTEGER NOT NULL,
            col       INTEGER NOT NULL,
            end_line  INTEGER NOT NULL,
            end_col   INTEGER NOT NULL
        );

        CREATE INDEX IF NOT EXISTS idx_symbols_name     ON symbols(name);
        CREATE INDEX IF NOT EXISTS idx_symbols_selector ON symbols(selector);
        CREATE INDEX IF NOT EXISTS idx_symbols_file     ON symbols(file_id);

        CREATE TABLE IF NOT EXISTS xrefs (
            id         INTEGER PRIMARY KEY,
            symbol_id  INTEGER NOT NULL REFERENCES symbols(id) ON DELETE CASCADE,
            file_id    INTEGER NOT NULL REFERENCES files(id)   ON DELETE CASCADE,
            line       INTEGER NOT NULL,
            col        INTEGER NOT NULL
        );

        CREATE INDEX IF NOT EXISTS idx_xrefs_symbol ON xrefs(symbol_id);
        CREATE INDEX IF NOT EXISTS idx_xrefs_file   ON xrefs(file_id);

        CREATE TABLE IF NOT EXISTS categories (
            id         INTEGER PRIMARY KEY,
            base_class TEXT    NOT NULL,
            category   TEXT    NOT NULL,
            file_id    INTEGER NOT NULL REFERENCES files(id) ON DELETE CASCADE
        );

        CREATE INDEX IF NOT EXISTS idx_categories_base ON categories(base_class);
        ",
    ) {
        Ok(()) => Ok(()),
        Err(e) => Err(StoreError::Sql(e)),
    }
}

impl IndexStore {
    /// Opens (or creates) the store at the given path.
    pub fn open(path: &str) -> (r: Result<IndexStore, StoreError>)
        ensures
            r matches Err(e) ==> (e is Sql),
    {
        match sql_open(path) {
            Ok(conn) => {
                let store = IndexStore { conn };
                match store.init_schema() {
                    Ok(()) => Ok(store),
                    Err(e) => Err(e),
                }
            },
            Err(e) => Err(StoreError::Sql(e)),
        }
    }

    /// Opens an in-memory store.
    pub fn in_memory() -> (r: Result<IndexStore, StoreError>)
        ensures
            r matches Err(e) ==> (e is Sql),
    {
        match sql_open_in_memory() {
            Ok(conn) => {
                let store = IndexStore { conn };
                match store.init_schema() {
                    Ok(()) => Ok(store),
                    Err(e) => Err(e),
                }
            },
            Err(e) => Err(StoreError::Sql(e)),
        }
    }

    fn init_schema(&self) -> (r: Result<(), StoreError>)
        ensures
            r matches Err(e) ==> (e is Sql),
    {
        create_tables(&self.conn)
    }

    /// Runs `st` and returns its rows, each of `columns` values.
    fn query_rows(&self, st: &SqlStatement, columns: usize) -> (r: Result<Vec<Vec<SqlValue>>, StoreError>)
        ensures
            match r {
                Ok(rows) => forall|i: int| 0 <= i < rows.len() ==> #[trigger] rows[i].len() == columns,
                Err(e) => e is Sql,
            },
    {
        match sql_query(&self.conn, st.sql.as_str(), &st.params, columns) {
            Ok(rows) => Ok(rows),
            Err(e) => Err(StoreError::Sql(e)),
        }
    }

    /// Runs `st`, which returns no rows.
    fn execute(&self, st: &SqlStatement) -> (r: Result<(), StoreError>)
        ensures
            r matches Err(e) ==> (e is Sql),
    {
        match sql_execute(&self.conn, st.sql.as_str(), &st.params) {
            Ok(_) => Ok(()),
            Err(e) => Err(StoreError::Sql(e)),
        }
    }

    /// Runs the symbol query `st` and decodes its rows.
    fn query_symbols(&self, st: &SqlStatement) -> (r: Result<Vec<SymbolRecord>, StoreError>)
        ensures
            match r {
                Ok(recs) => exists|rows: Seq<Vec<SqlValue>>| records_of_rows(rows, recs@),
                Err(e) => e is Sql || exists|rows: Seq<Vec<SqlValue>>|
                    first_row_fault(rows) == Some(e),
            },
    {
        match self.query_rows(st, 7) {
            Ok(rows) => decode_symbol_rows(&rows),
            Err(e) => Err(e),
        }
    }

    /// Looks up symbols by exact name across the whole workspace: runs the
    /// statement of `find_by_name_statement` and decodes its rows.
    pub fn find_symbols_by_name(&self, name: &str) -> (r: Result<Vec<SymbolRecord>, StoreError>)
        ensures
            match r {
                Ok(recs) => exists|rows: Seq<Vec<SqlValue>>| records_of_rows(rows, recs@),
                Err(e) => e is Sql || exists|rows: Seq<Vec<SqlValue>>|
                    first_row_fault(rows) == Some(e),
            },
    {
        let st = find_by_name_statement(name);
        self.query_symbols(&st)
    }

    /// Lists all file paths currently in the store, in path order: runs
    /// the statement of `list_paths_statement` and decodes its rows.
    pub fn list_all_file_paths(&self) -> (r: Result<Vec<String>, StoreError>)
        ensures
            r matches Err(e) ==> (e is Sql || e == (StoreError::InvalidColumnType { column: 0 })),
            r matches Ok(paths) ==> exists|rows: Seq<Vec<SqlValue>>| paths_of_rows(rows, paths@),
    {
        let st = list_paths_statement();
        match self.query_rows(&st, 1) {
            Ok(rows) => match decode_text_rows(&rows) {
                Ok(paths) => {
                    assert(paths_of_rows(rows@, paths@));
                    Ok(paths)
                },
                Err(e) => {
                    proof {
                        let i = choose|i: int| 0 <= i < rows.len() && text_fault(#[trigger] rows@[i]@, 0) == Some(e);
                        assert(rows@[i]@.len() == 1);
                    }
                    Err(e)
                },
            },
            Err(e) => Err(e),
        }
    }

    /// Searches symbols by name prefix (for workspace/symbol), at most 100:
    /// runs the statement of `search_statement` and decodes its rows.
    pub fn search_symbols(&self, query: &str) -> (r: Result<Vec<SymbolRecord>, StoreError>)
        ensures
            match r {
                Ok(recs) => exists|rows: Seq<Vec<SqlValue>>| records_of_rows(rows, recs@),
                Err(e) => e is Sql || exists|rows: Seq<Vec<SqlValue>>|
                    first_row_fault(rows) == Some(e),
            },
    {
        let st = search_statement(query);
        self.query_symbols(&st)
    }

    /// Inserts a file record, or updates the modification time of the one
    /// with that path (`upsert_file_statement`), then reads the file's
    /// rowid back by its path (`file_id_statement`, `rowid_of`); the
    /// connection's last insert would be stale when the path was there.
    pub fn upsert_file(&self, path: &str, mtime: i64) -> (r: Result<i64, StoreError>)
        ensures
            !(r matches Err(StoreError::Sql(_))) ==> exists|rows: Seq<Vec<SqlValue>>|
                #[trigger] rowid_spec(rows) == r,
    {
        let up = upsert_file_statement(path, mtime);
        match self.execute(&up) {
            Ok(()) => {},
            Err(e) => return Err(e),
        }
        let q = file_id_statement(path);
        match self.query_rows(&q, 1) {
            Ok(rows) => {
                let r = rowid_of(&rows);
                assert(rowid_spec(rows@) == r);
                r
            },
            Err(e) => Err(e),
        }
    }

    /// Inserts one symbol of the file with rowid `file_id` (the statement
    /// of `insert_symbol_statement`).
    pub fn insert_symbol(&self, file_id: i64, sym: &SymbolInput) -> (r: Result<(), StoreError>)
        ensures
            r matches Err(e) ==> (e is Sql),
    {
        let st = insert_symbol_statement(file_id, sym);
        self.execute(&st)
    }

    /// Runs `stmts` in order; the first failure stops the run.
    fn run_statements(&self, stmts: &Vec<SqlStatement>) -> (r: Result<(), StoreError>)
        ensures
            r matches Err(e) ==> (e is Sql),
    {
        let mut i: usize = 0;
        while i < stmts.len()
            invariant
                i <= stmts.len(),
            decreases stmts.len() - i,
        {
            match self.execute(&stmts[i]) {
                Ok(()) => {},
                Err(e) => return Err(e),
            }
            i = i + 1;
        }
        Ok(())
    }

    /// The work of `index_file_symbols`, inside its transaction: the
    /// upsert of the file, then the statements of
    /// `replace_symbols_statements` for its rowid.
    fn replace_file_symbols(&self, file_path: &str, mtime: i64, symbols: &[SymbolInput]) -> (r: Result<
        (),
        StoreError,
    >)
        ensures
            !(r matches Err(StoreError::Sql(_))) ==> r is Ok || exists|rows: Seq<Vec<SqlValue>>|
                (#[trigger] rowid_spec(rows)) matches Err(e) && r == Err::<(), StoreError>(e),
    {
        let file_id = match self.upsert_file(file_path, mtime) {
            Ok(id) => id,
            Err(e) => {
                return Err(e);
            },
        };
        let stmts = replace_symbols_statements(file_id, symbols);
        self.run_statements(&stmts)
    }

    /// Replaces all symbols of `file_path` with `symbols`, in one
    /// transaction: `BEGIN`; the file is upserted, its old symbols deleted,
    /// then the new ones inserted in order (see `replace_file_symbols`); the
    /// first failing statement stops the work; then `COMMIT`, or `ROLLBACK`
    /// when the work failed (see `transaction_end`).
    pub fn index_file_symbols(&self, file_path: &str, mtime: i64, symbols: &[SymbolInput]) -> (r:
        Result<(), StoreError>)
        ensures
            !(r matches Err(StoreError::Sql(_))) ==> r is Ok || exists|rows: Seq<Vec<SqlValue>>|
                (#[trigger] rowid_spec(rows)) matches Err(e) && r == Err::<(), StoreError>(e),
    {
        match sql_execute_batch(&self.conn, "BEGIN") {
            Ok(()) => {},
            Err(e) => return Err(StoreError::Sql(e)),
        }
        let work = self.replace_file_symbols(file_path, mtime, symbols);
        let end = transaction_end(work.is_ok());
        let ended = sql_execute_batch(&self.conn, end);
        match work {
            Ok(()) => match ended {
                Ok(()) => Ok(()),
                Err(e) => {
                    let _ = sql_execute_batch(&self.conn, transaction_end(false));
                    Err(StoreError::Sql(e))
                },
            },
            Err(e) => Err(e),
        }
    }
}

} // verus!
