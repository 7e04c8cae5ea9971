//! Small combinators on results: fall back to an alternative computation
//! when a result failed, or run a step only when a condition holds.

use vstd::prelude::*;

verus! {

/// Falling back to an alternative when a result failed.
pub trait FallbackIf<T, E>: Sized {
    /// The result this value stands for.
    spec fn as_result(&self) -> Result<T, E>;

    /// When this failed and `predicate` holds, the result of `f` on
    /// `alternative`; otherwise this result as it is.
    fn fallback_if<F, V>(self, predicate: bool, f: F, alternative: V) -> (r: Result<T, E>) where
        F: FnOnce(V) -> Result<T, E>,
        requires
            self.as_result() is Err && predicate ==> call_requires(f, (alternative,)),
        ensures
            self.as_result() is Err && predicate ==> call_ensures(f, (alternative,), r),
            !(self.as_result() is Err && predicate) ==> r == self.as_result(),
    ;
}

impl<T, E> FallbackIf<T, E> for Result<T, E> {
    open spec fn as_result(&self) -> Result<T, E> {
        *self
    }

    fn fallback_if<F, V>(self, predicate: bool, f: F, alternative: V) -> (r: Result<T, E>) where
        F: FnOnce(V) -> Result<T, E>,
    {
        if self.is_err() && predicate {
            f(alternative)
        } else {
            self
        }
    }
}

/// Running a step on a successful result only when a condition holds.
pub trait ConditionallyDo<T, E>: Sized {
    /// The result this value stands for.
    spec fn as_result(&self) -> Result<T, E>;

    /// Asks `condition` once; on success, when it holds, runs `op` on the
    /// value; otherwise keeps the result as it is.
    fn do_if<B, F>(self, condition: B, op: F) -> (r: Result<T, E>) where
        B: FnOnce() -> bool,
        F: FnOnce(T) -> Result<T, E>,
        requires
            call_requires(condition, ()),
            forall|t: T| self.as_result() == Ok::<T, E>(t) ==> call_requires(op, (t,)),
        ensures
            exists|b: bool|
                call_ensures(condition, (), b) && match self.as_result() {
                    Ok(t) => if b {
                        call_ensures(op, (t,), r)
                    } else {
                        r == Ok::<T, E>(t)
                    },
                    Err(e) => r == Err::<T, E>(e),
                },
    ;
}

impl<T, E> ConditionallyDo<T, E> for Result<T, E> {
    open spec fn as_result(&self) -> Result<T, E> {
        *self
    }

    fn do_if<B, F>(self, condition: B, op: F) -> (r: Result<T, E>) where
        B: FnOnce() -> bool,
        F: FnOnce(T) -> Result<T, E>,
    {
        let execute = condition();
        match self {
            Ok(t) => {
                if execute {
                    op(t)
                } else {
                    Ok(t)
                }
            },
            Err(e) => Err(e),
        }
    }
}

} // verus!
