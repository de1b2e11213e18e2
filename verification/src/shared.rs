//! Shared ownership helpers.

use std::rc::Rc;

use vstd::prelude::*;

verus! {

/// Another pointer to the same value (std's `Rc::clone`).
#[verifier::external_body]
pub(crate) fn rc_clone<T>(r: &Rc<T>) -> (c: Rc<T>)
    ensures
        c == *r,
{
    Rc::clone(r)
}

} // verus!
