//! Shared traits.

use vstd::prelude::*;

verus! {

/// A step that advances some state.
pub trait Next {
    fn next();
}

} // verus!
