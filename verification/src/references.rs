//! Reference locations from the occurrences libclang reports.

use vstd::prelude::*;

use crate::cursor_kinds::{clang_position, spelling_pos};
use crate::lsp::{Position, Range};
use crate::token_scan::file_uri;

verus! {

/// A place in a document.
#[derive(Debug, Clone)]
pub struct Location {
    pub uri: String,
    pub range: Range,
}

/// An occurrence reported by libclang: the name of its file (`None` when
/// it has none) and its 1-based start and end.
#[derive(Debug)]
pub struct Occurrence {
    pub file: Option<String>,
    pub start: (u32, u32),
    pub end: (u32, u32),
}

/// The location of an occurrence: none without a named file or on line
/// zero.
pub open spec fn occurrence_location(o: Occurrence) -> Option<(Seq<char>, Range)> {
    match o.file {
        Some(f) => if f@.len() > 0 && o.start.0 != 0 {
            Some(("file://"@ + f@, Range { start: clang_position(o.start.0, o.start.1), end: clang_position(o.end.0, o.end.1) }))
        } else {
            None
        },
        None => None,
    }
}

/// The locations of the occurrences `os` from the first, without those
/// that start at `decl` unless `include_declaration`.
pub open spec fn locations_of(os: Seq<Occurrence>, include_declaration: bool, decl: Position) -> Seq<(Seq<char>, Range)>
    decreases os.len(),
{
    if os.len() == 0 {
        seq![]
    } else {
        let rest = locations_of(os.drop_last(), include_declaration, decl);
        match occurrence_location(os.last()) {
            Some(l) => if include_declaration || l.1.start != decl {
                rest.push(l)
            } else {
                rest
            },
            None => rest,
        }
    }
}

pub open spec fn location_views(v: Seq<Location>) -> Seq<(Seq<char>, Range)> {
    v.map_values(|l: Location| (l.uri@, l.range))
}

/// The reference locations of the occurrences, in order; unless
/// `include_declaration`, those starting where the declaration's extent
/// starts (1-based `decl_start`) are left out.
pub fn reference_locations(occurrences: &Vec<Occurrence>, include_declaration: bool, decl_start: (u32, u32)) -> (r: Vec<Location>)
    ensures
        location_views(r@) == locations_of(occurrences@, include_declaration, clang_position(decl_start.0, decl_start.1)),
{
    let decl = spelling_pos(decl_start.0, decl_start.1);
    let mut out: Vec<Location> = Vec::new();
    let mut k: usize = 0;
    assert(occurrences@.take(0) =~= Seq::<Occurrence>::empty());
    while k < occurrences.len()
        invariant
            k <= occurrences.len(),
            decl == clang_position(decl_start.0, decl_start.1),
            location_views(out@) == locations_of(occurrences@.take(k as int), include_declaration, decl),
        decreases occurrences.len() - k,
    {
        assert(occurrences@.take(k + 1).drop_last() =~= occurrences@.take(k as int));
        assert(occurrences@.take(k + 1).last() == occurrences@[k as int]);
        let o = &occurrences[k];
        if let Some(f) = &o.file {
            if !f.as_str().is_empty() && o.start.0 != 0 {
                let range = Range { start: spelling_pos(o.start.0, o.start.1), end: spelling_pos(o.end.0, o.end.1) };
                if include_declaration || range.start != decl {
                    let l = Location { uri: file_uri(f.as_str()), range };
                    assert(location_views(out@.push(l)) =~= location_views(out@).push((l.uri@, l.range)));
                    out.push(l);
                }
            }
        }
        k = k + 1;
    }
    assert(occurrences@.take(occurrences.len() as int) =~= occurrences@);
    out
}

} // verus!
