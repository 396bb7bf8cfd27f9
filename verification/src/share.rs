//! Further handles to a value that is shared.

use std::rc::Rc;
use std::sync::Arc;
use vstd::prelude::*;

verus! {

/// Calls `Rc::clone` of std, which hands out another handle to the same value.
#[verifier::external_body]
pub(crate) fn share_rc<T>(this: &Rc<T>) -> (res: Rc<T>)
    ensures
        res == *this,
{
    Rc::clone(this)
}

/// Calls `Arc::clone` of std, which hands out another handle to the same
/// value.
#[verifier::external_body]
pub(crate) fn share_arc<T>(this: &Arc<T>) -> (res: Arc<T>)
    ensures
        res == *this,
{
    Arc::clone(this)
}

} // verus!
