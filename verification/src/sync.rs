//! The seam at which a model checker for concurrent code can be put in.

use vstd::prelude::*;

verus! {

/// Runs `f` once, as a model checker would run it for every interleaving.
pub fn model<F: Fn() + Sync + Send + 'static>(f: F)
    requires
        f.requires(()),
    ensures
        f.ensures((), ()),
{
    f();
}

} // verus!
