use vstd::prelude::*;
use std::ops::ControlFlow;

verus! {

/// A result that can be a value, nothing, or an error, like a combination
/// of `Option` and `Result`; propagating it continues with an `Option` and
/// breaks out only on an error.
pub enum TryError<T, E> {
    Value(T),
    Nothing,
    Error(E),
}

impl<T, E> TryError<T, E> {
    /// What propagating does: an error breaks out, a value or nothing
    /// continues as an `Option`.
    pub open spec fn branch_of(self) -> ControlFlow<E, Option<T>> {
        match self {
            TryError::Value(v) => ControlFlow::Continue(Some(v)),
            TryError::Nothing => ControlFlow::Continue(None),
            TryError::Error(e) => ControlFlow::Break(e),
        }
    }

    /// The result that continues with `output`.
    pub open spec fn output_of(output: Option<T>) -> Self {
        match output {
            Some(v) => TryError::Value(v),
            None => TryError::Nothing,
        }
    }

    /// The value; nothing or an error is a caller error.
    pub fn unwrap_some(self) -> (r: T)
        requires
            self is Value,
        ensures
            r == self->Value_0,
    {
        match self {
            TryError::Value(v) => v,
            _ => {
                proof {
                    assert(false);
                }
                unreached()
            },
        }
    }

    /// An error propagated into the result stays an error.
    pub fn from_residual(residual: E) -> (r: Self)
        ensures
            r == TryError::<T, E>::Error(residual),
    {
        TryError::Error(residual)
    }

    pub fn from_output(output: Option<T>) -> (r: Self)
        ensures
            r == Self::output_of(output),
    {
        match output {
            Some(v) => TryError::Value(v),
            None => TryError::Nothing,
        }
    }

    pub fn branch(self) -> (r: ControlFlow<E, Option<T>>)
        ensures
            r == self.branch_of(),
    {
        match self {
            TryError::Value(v) => ControlFlow::Continue(Some(v)),
            TryError::Nothing => ControlFlow::Continue(None),
            TryError::Error(e) => ControlFlow::Break(e),
        }
    }
}

/// Rebuilding a result from what propagating it gives returns the result:
/// `from_output` of what `branch` continues with, or `from_residual` of
/// what it breaks with.
pub proof fn law_try_error_round_trip<T, E>(t: TryError<T, E>)
    ensures
        match t.branch_of() {
            ControlFlow::Continue(x) => TryError::<T, E>::output_of(x) == t,
            ControlFlow::Break(e) => TryError::<T, E>::Error(e) == t,
        },
{
}

} // verus!
