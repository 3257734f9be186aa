//! A small addition to `Result`.

use vstd::prelude::*;

verus! {

/// Looks at the error of a result and lets the value go.
pub trait ResultExt<E>: Sized {
    /// The error, where there is one.
    spec fn error(&self) -> Option<E>;

    /// Calls `op` on the error, if `self` is one, and drops what `op`
    /// returns: the call was made and came back with some value. A success
    /// is dropped and `op` is not called.
    fn if_err<F, O: FnOnce(E) -> F>(self, op: O)
        requires
            self.error() matches Some(e) ==> call_requires(op, (e,)),
        ensures
            self.error() matches Some(e) ==> exists|out: F| call_ensures(op, (e,), out),
    ;
}

impl<T, E> ResultExt<E> for Result<T, E> {
    open spec fn error(&self) -> Option<E> {
        match *self {
            Ok(_) => None,
            Err(e) => Some(e),
        }
    }

    fn if_err<F, O: FnOnce(E) -> F>(self, op: O) {
        if let Err(err) = self {
            op(err);
        }
    }
}

} // verus!
