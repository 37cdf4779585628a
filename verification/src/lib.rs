//! Verified core of an Objective-C language server.

pub mod text;
pub mod lsp;
pub mod multimap;
pub mod paths;
pub mod project;
pub mod compile_db;
pub mod selector;
pub mod category;
pub mod property;
pub mod protocol;
pub mod header_nav;
pub mod header_detect;
pub mod sdk;
pub mod xcodeproj;
pub mod nullability;
pub mod code_actions;
pub mod syntax_tree;
pub mod parser;
pub mod folding;
pub mod tokens;
pub mod inlay_hints;
pub mod symbols;
pub mod doc_comment;
pub mod cursor_kinds;
pub mod hover_text;
pub mod token_scan;
pub mod hierarchy;
pub mod rename;
pub mod stubs;
pub mod completion;
pub mod formatting;
pub mod release;
pub mod documents;
pub mod crash_guard;
pub mod references;
pub mod store;
