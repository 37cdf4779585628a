//! libclang cursor kinds and the decisions made on them.
//!
//! Cursor kinds, diagnostic severities and token kinds are the numbers of
//! libclang's C API (`CXCursorKind`, `CXDiagnosticSeverity`,
//! `CXTokenKind`); the libclang calls themselves are made by the server.

use vstd::prelude::*;

use crate::lsp::{Diagnostic, DiagnosticSeverity, Position, Range};
use crate::text::to_owned_string;

verus! {

pub const CX_CURSOR_STRUCT_DECL: i32 = 2;
pub const CX_CURSOR_ENUM_DECL: i32 = 5;
pub const CX_CURSOR_FUNCTION_DECL: i32 = 8;
pub const CX_CURSOR_VAR_DECL: i32 = 9;
pub const CX_CURSOR_PARM_DECL: i32 = 10;
pub const CX_CURSOR_OBJC_INTERFACE_DECL: i32 = 11;
pub const CX_CURSOR_OBJC_CATEGORY_DECL: i32 = 12;
pub const CX_CURSOR_OBJC_PROTOCOL_DECL: i32 = 13;
pub const CX_CURSOR_OBJC_PROPERTY_DECL: i32 = 14;
pub const CX_CURSOR_OBJC_IVAR_DECL: i32 = 15;
pub const CX_CURSOR_OBJC_INSTANCE_METHOD_DECL: i32 = 16;
pub const CX_CURSOR_OBJC_CLASS_METHOD_DECL: i32 = 17;
pub const CX_CURSOR_OBJC_IMPLEMENTATION_DECL: i32 = 18;
pub const CX_CURSOR_OBJC_CATEGORY_IMPL_DECL: i32 = 19;
pub const CX_CURSOR_TYPEDEF_DECL: i32 = 20;
pub const CX_CURSOR_CXX_METHOD: i32 = 21;
pub const CX_CURSOR_OBJC_SUPER_CLASS_REF: i32 = 40;
pub const CX_CURSOR_OBJC_PROTOCOL_REF: i32 = 41;
pub const CX_CURSOR_OBJC_CLASS_REF: i32 = 42;
pub const CX_CURSOR_NO_DECL_FOUND: i32 = 71;
pub const CX_CURSOR_INVALID_CODE: i32 = 73;
pub const CX_CURSOR_MEMBER_REF_EXPR: i32 = 102;
pub const CX_CURSOR_CALL_EXPR: i32 = 103;
pub const CX_CURSOR_OBJC_MESSAGE_EXPR: i32 = 104;
pub const CX_CURSOR_DECL_STMT: i32 = 231;
pub const CX_CURSOR_TRANSLATION_UNIT: i32 = 300;
pub const CX_CURSOR_MACRO_DEFINITION: i32 = 501;

pub const CX_DIAGNOSTIC_NOTE: i32 = 1;
pub const CX_DIAGNOSTIC_WARNING: i32 = 2;
pub const CX_DIAGNOSTIC_ERROR: i32 = 3;
pub const CX_DIAGNOSTIC_FATAL: i32 = 4;

pub const CX_TOKEN_PUNCTUATION: u32 = 0;
pub const CX_TOKEN_IDENTIFIER: u32 = 2;

/// The label of a cursor kind in hover text.
pub open spec fn kind_label(kind: i32) -> Seq<char> {
    if kind == CX_CURSOR_OBJC_INTERFACE_DECL {
        "@interface"@
    } else if kind == CX_CURSOR_OBJC_IMPLEMENTATION_DECL {
        "@implementation"@
    } else if kind == CX_CURSOR_OBJC_PROTOCOL_DECL {
        "@protocol"@
    } else if kind == CX_CURSOR_OBJC_CATEGORY_DECL {
        "category"@
    } else if kind == CX_CURSOR_OBJC_INSTANCE_METHOD_DECL {
        "instance method"@
    } else if kind == CX_CURSOR_OBJC_CLASS_METHOD_DECL {
        "class method"@
    } else if kind == CX_CURSOR_OBJC_PROPERTY_DECL {
        "@property"@
    } else if kind == CX_CURSOR_OBJC_IVAR_DECL {
        "ivar"@
    } else if kind == CX_CURSOR_FUNCTION_DECL {
        "function"@
    } else if kind == CX_CURSOR_VAR_DECL {
        "variable"@
    } else if kind == CX_CURSOR_TYPEDEF_DECL {
        "typedef"@
    } else if kind == CX_CURSOR_STRUCT_DECL {
        "struct"@
    } else if kind == CX_CURSOR_ENUM_DECL {
        "enum"@
    } else if kind == CX_CURSOR_MACRO_DEFINITION {
        "macro"@
    } else {
        "symbol"@
    }
}

/// The label of a cursor kind in hover text.
pub fn cursor_kind_label(kind: i32) -> (r: &'static str)
    ensures
        r@ == kind_label(kind),
{
    if kind == CX_CURSOR_OBJC_INTERFACE_DECL {
        "@interface"
    } else if kind == CX_CURSOR_OBJC_IMPLEMENTATION_DECL {
        "@implementation"
    } else if kind == CX_CURSOR_OBJC_PROTOCOL_DECL {
        "@protocol"
    } else if kind == CX_CURSOR_OBJC_CATEGORY_DECL {
        "category"
    } else if kind == CX_CURSOR_OBJC_INSTANCE_METHOD_DECL {
        "instance method"
    } else if kind == CX_CURSOR_OBJC_CLASS_METHOD_DECL {
        "class method"
    } else if kind == CX_CURSOR_OBJC_PROPERTY_DECL {
        "@property"
    } else if kind == CX_CURSOR_OBJC_IVAR_DECL {
        "ivar"
    } else if kind == CX_CURSOR_FUNCTION_DECL {
        "function"
    } else if kind == CX_CURSOR_VAR_DECL {
        "variable"
    } else if kind == CX_CURSOR_TYPEDEF_DECL {
        "typedef"
    } else if kind == CX_CURSOR_STRUCT_DECL {
        "struct"
    } else if kind == CX_CURSOR_ENUM_DECL {
        "enum"
    } else if kind == CX_CURSOR_MACRO_DEFINITION {
        "macro"
    } else {
        "symbol"
    }
}

/// Whether a cursor kind can take part in a call hierarchy: methods and
/// functions.
pub fn is_callable_kind(kind: i32) -> (b: bool)
    ensures
        b == (kind == CX_CURSOR_OBJC_INSTANCE_METHOD_DECL || kind == CX_CURSOR_OBJC_CLASS_METHOD_DECL
            || kind == CX_CURSOR_FUNCTION_DECL || kind == CX_CURSOR_CXX_METHOD),
{
    kind == CX_CURSOR_OBJC_INSTANCE_METHOD_DECL || kind == CX_CURSOR_OBJC_CLASS_METHOD_DECL
        || kind == CX_CURSOR_FUNCTION_DECL || kind == CX_CURSOR_CXX_METHOD
}

/// Whether a cursor kind can take part in a type hierarchy: interfaces,
/// protocols and categories.
pub fn is_type_kind(kind: i32) -> (b: bool)
    ensures
        b == (kind == CX_CURSOR_OBJC_INTERFACE_DECL || kind == CX_CURSOR_OBJC_PROTOCOL_DECL || kind
            == CX_CURSOR_OBJC_CATEGORY_DECL),
{
    kind == CX_CURSOR_OBJC_INTERFACE_DECL || kind == CX_CURSOR_OBJC_PROTOCOL_DECL || kind
        == CX_CURSOR_OBJC_CATEGORY_DECL
}

/// The kind of a completion item.
#[derive(Debug, Clone, Copy, PartialEq, Eq, Structural)]
pub enum CompletionItemKind {
    Text,
    Method,
    Function,
    Variable,
    Class,
    Interface,
    Property,
    Struct,
    Constant,
}

pub open spec fn completion_kind(kind: i32) -> CompletionItemKind {
    if kind == CX_CURSOR_OBJC_INSTANCE_METHOD_DECL || kind == CX_CURSOR_OBJC_CLASS_METHOD_DECL {
        CompletionItemKind::Method
    } else if kind == CX_CURSOR_OBJC_PROPERTY_DECL {
        CompletionItemKind::Property
    } else if kind == CX_CURSOR_OBJC_INTERFACE_DECL || kind == CX_CURSOR_OBJC_IMPLEMENTATION_DECL {
        CompletionItemKind::Class
    } else if kind == CX_CURSOR_OBJC_PROTOCOL_DECL {
        CompletionItemKind::Interface
    } else if kind == CX_CURSOR_FUNCTION_DECL {
        CompletionItemKind::Function
    } else if kind == CX_CURSOR_VAR_DECL || kind == CX_CURSOR_OBJC_IVAR_DECL {
        CompletionItemKind::Variable
    } else if kind == CX_CURSOR_MACRO_DEFINITION {
        CompletionItemKind::Constant
    } else if kind == CX_CURSOR_TYPEDEF_DECL || kind == CX_CURSOR_STRUCT_DECL || kind == CX_CURSOR_ENUM_DECL {
        CompletionItemKind::Struct
    } else {
        CompletionItemKind::Text
    }
}

/// The completion item kind of a cursor kind.
pub fn cx_cursor_kind_to_completion_kind(kind: i32) -> (r: CompletionItemKind)
    ensures
        r == completion_kind(kind),
{
    if kind == CX_CURSOR_OBJC_INSTANCE_METHOD_DECL || kind == CX_CURSOR_OBJC_CLASS_METHOD_DECL {
        CompletionItemKind::Method
    } else if kind == CX_CURSOR_OBJC_PROPERTY_DECL {
        CompletionItemKind::Property
    } else if kind == CX_CURSOR_OBJC_INTERFACE_DECL || kind == CX_CURSOR_OBJC_IMPLEMENTATION_DECL {
        CompletionItemKind::Class
    } else if kind == CX_CURSOR_OBJC_PROTOCOL_DECL {
        CompletionItemKind::Interface
    } else if kind == CX_CURSOR_FUNCTION_DECL {
        CompletionItemKind::Function
    } else if kind == CX_CURSOR_VAR_DECL || kind == CX_CURSOR_OBJC_IVAR_DECL {
        CompletionItemKind::Variable
    } else if kind == CX_CURSOR_MACRO_DEFINITION {
        CompletionItemKind::Constant
    } else if kind == CX_CURSOR_TYPEDEF_DECL || kind == CX_CURSOR_STRUCT_DECL || kind == CX_CURSOR_ENUM_DECL {
        CompletionItemKind::Struct
    } else {
        CompletionItemKind::Text
    }
}

/// A libclang (1-based) line and column as a (0-based) position; a zero
/// stays zero.
pub open spec fn clang_position(line: u32, col: u32) -> Position {
    Position {
        line: if line > 0 { (line - 1) as u32 } else { 0 },
        character: if col > 0 { (col - 1) as u32 } else { 0 },
    }
}

/// A libclang (1-based) line and column as a (0-based) position.
pub fn spelling_pos(line: u32, col: u32) -> (p: Position)
    ensures
        p == clang_position(line, col),
{
    Position { line: line.saturating_sub(1), character: col.saturating_sub(1) }
}

/// The zero-width range at a libclang line and column.
pub fn location_to_range(line: u32, col: u32) -> (r: Range)
    ensures
        r.start == clang_position(line, col),
        r.end == r.start,
{
    let pos = spelling_pos(line, col);
    Range { start: pos, end: pos }
}

/// The severity of a libclang diagnostic; `None` for an ignored one.
pub open spec fn clang_severity(severity: i32) -> Option<DiagnosticSeverity> {
    if severity == CX_DIAGNOSTIC_NOTE {
        Some(DiagnosticSeverity::Hint)
    } else if severity == CX_DIAGNOSTIC_WARNING {
        Some(DiagnosticSeverity::Warning)
    } else if severity == CX_DIAGNOSTIC_ERROR || severity == CX_DIAGNOSTIC_FATAL {
        Some(DiagnosticSeverity::Error)
    } else {
        None
    }
}

/// A libclang diagnostic (severity, 1-based location, message) as a
/// diagnostic at that location from `objc-lsp`; `None` for an ignored one.
pub fn cx_diagnostic_to_lsp(severity: i32, line: u32, col: u32, message: String) -> (r: Option<Diagnostic>)
    ensures
        match clang_severity(severity) {
            None => r is None,
            Some(s) => (r matches Some(d) && d.severity == Some(s) && d.range.start == clang_position(line, col)
                && d.range.end == d.range.start && d.message@ == message@ && (d.source matches Some(
                src,
            ) && src@ == "objc-lsp"@) && d.code is None),
        },
{
    let sev = if severity == CX_DIAGNOSTIC_NOTE {
        DiagnosticSeverity::Hint
    } else if severity == CX_DIAGNOSTIC_WARNING {
        DiagnosticSeverity::Warning
    } else if severity == CX_DIAGNOSTIC_ERROR || severity == CX_DIAGNOSTIC_FATAL {
        DiagnosticSeverity::Error
    } else {
        return None;
    };
    Some(
        Diagnostic {
            range: location_to_range(line, col),
            severity: Some(sev),
            message,
            source: Some(to_owned_string("objc-lsp")),
            code: None,
        },
    )
}

} // verus!
