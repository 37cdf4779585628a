//! Running libclang work under a crash guard.
//!
//! On Unix the server recovers from a crash inside libclang with a signal
//! handler; where no such recovery exists the guarded work simply runs.

use vstd::prelude::*;

verus! {

/// Run `f` under the crash guard, where there is no signal recovery: the
/// result is `f`'s.
pub fn with_crash_guard<T, E, F: FnOnce() -> Result<T, E>>(f: F) -> (r: Result<T, E>)
    requires
        f.requires(()),
    ensures
        f.ensures((), r),
{
    f()
}

} // verus!
