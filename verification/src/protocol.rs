//! Protocol conformance checking and stub generation.
//!
//! When a class declares `@interface Foo <Bar, Baz>`, every required method
//! in `Bar` and `Baz` must be implemented in `@implementation Foo`.
//! This module generates stubs for the methods that are missing.

use vstd::prelude::*;

use crate::text::{append_str, append_string};

verus! {

/// A required method that has not been implemented.
#[derive(Debug, Clone)]
pub struct MissingMethod {
    pub protocol: String,
    pub selector: String,
    pub is_class_method: bool,
    /// e.g. `- (void)tableView:(UITableView *)tv didSelectRowAtIndexPath:(NSIndexPath *)ip`
    pub signature: String,
}

/// The stub of one method: its signature, a body with a TODO comment.
pub open spec fn stub_of(m: MissingMethod) -> Seq<char> {
    m.signature@ + " {\n    // TODO: implement "@ + m.selector@ + "\n}\n"@
}

/// The stubs of `ms`, separated by a newline.
pub open spec fn stubs_of(ms: Seq<MissingMethod>) -> Seq<char>
    decreases ms.len(),
{
    if ms.len() == 0 {
        seq![]
    } else if ms.len() == 1 {
        stub_of(ms[0])
    } else {
        stubs_of(ms.drop_last()) + "\n"@ + stub_of(ms.last())
    }
}

/// Generate the stub source text for a list of missing methods.
pub fn generate_stubs(methods: &[MissingMethod]) -> (s: String)
    ensures
        s@ == stubs_of(methods@),
{
    let mut s = String::new();
    let mut i: usize = 0;
    while i < methods.len()
        invariant
            i <= methods@.len(),
            s@ == stubs_of(methods@.take(i as int)),
        decreases methods.len() - i,
    {
        let ghost before = s@;
        if i > 0 {
            append_str(&mut s, "\n");
        }
        let m = &methods[i];
        append_string(&mut s, &m.signature);
        append_str(&mut s, " {\n    // TODO: implement ");
        append_string(&mut s, &m.selector);
        append_str(&mut s, "\n}\n");
        assert(methods@.take(i + 1).drop_last() =~= methods@.take(i as int));
        if i > 0 {
            assert(s@ =~= before + "\n"@ + stub_of(methods@[i as int]));
        } else {
            assert(s@ =~= stub_of(methods@[i as int]));
        }
        i = i + 1;
    }
    assert(methods@.take(i as int) =~= methods@);
    s
}

} // verus!
