//! Handing the two outcomes of a result to their handlers.

use vstd::prelude::*;

verus! {

/// A result whose outcome is passed to one of two handlers.
pub trait HandleResult<T, E>: Sized {
    /// The value of a success.
    spec fn ok_value(&self) -> Option<T>;

    /// The error of a failure.
    spec fn err_value(&self) -> Option<E>;

    /// Calls `ok_handler` with the value of a success, or `warn_handler` with
    /// the error of a failure.
    fn expect_log<F: Fn(T), G: Fn(E)>(self, ok_handler: F, warn_handler: G)
        requires
            self.ok_value() matches Some(v) ==> ok_handler.requires((v,)),
            self.err_value() matches Some(e) ==> warn_handler.requires((e,)),
        ensures
            self.ok_value() matches Some(v) ==> ok_handler.ensures((v,), ()),
            self.err_value() matches Some(e) ==> warn_handler.ensures((e,), ()),
    ;
}

impl<T, E> HandleResult<T, E> for Result<T, E> {
    open spec fn ok_value(&self) -> Option<T> {
        match self {
            Ok(v) => Some(*v),
            Err(_) => None,
        }
    }

    open spec fn err_value(&self) -> Option<E> {
        match self {
            Ok(_) => None,
            Err(e) => Some(*e),
        }
    }

    fn expect_log<F: Fn(T), G: Fn(E)>(self, ok_handler: F, warn_handler: G) {
        match self {
            Ok(value) => ok_handler(value),
            Err(e) => warn_handler(e),
        }
    }
}

} // verus!
