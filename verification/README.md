# objc_lsp

The verified core of an Objective-C language server.

- `src/` is the library, checked by Verus: selectors and the selector
  database, categories, property renames, protocol stubs, header /
  implementation navigation, header language detection, compile flags
  (`compile_commands.json`, Xcode projects, SDK / GNUstep / CocoaPods
  include paths), nullability diagnostics and syntax code actions, the
  tree-sitter syntax layer (parsing, folding, semantic tokens, inlay
  hints, document symbols), the decisions behind the libclang features
  (hover text, token scanning for go-to-definition, references, rename
  edits, hierarchy items, completion items, diagnostics, formatting
  edits), the open-document store, request routing and the SQLite symbol
  store.  Calls into `tree_sitter`, `rusqlite` and `std::path` sit behind
  small trusted wrappers whose contracts say what the library relies on.
- `app/` is the server program: the LSP connection, capability
  advertisement, and the libclang (FFI) glue that reads cursors and tokens
  into plain values for the library.
- `tests/` exercises the library with the real outside crates linked.
