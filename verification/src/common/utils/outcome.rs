use vstd::prelude::*;
use std::ops::ControlFlow;

verus! {

/// A result that can be a value, nothing, or an error: a combination of
/// `Option` and `Result`. `Nothing` says that there was nothing to produce,
/// which is not an error.
pub enum Outcome<T, E> {
    Value(T),
    Nothing,
    Error(E),
}

/// Wraps an `Outcome` so that propagating it passes both `Nothing` and
/// `Error` up to the caller and only continues on a value.
pub struct OnlyOkOutcome<T, E> {
    oc: Outcome<T, E>,
}

impl<T, E> Outcome<T, E> {
    /// What propagating the outcome does: an error breaks out, a value or
    /// nothing continues as an `Option`.
    pub open spec fn branch_of(self) -> ControlFlow<E, Option<T>> {
        match self {
            Outcome::Value(v) => ControlFlow::Continue(Some(v)),
            Outcome::Nothing => ControlFlow::Continue(None),
            Outcome::Error(e) => ControlFlow::Break(e),
        }
    }

    /// The outcome that continues with `output`.
    pub open spec fn output_of(output: Option<T>) -> Self {
        match output {
            Some(v) => Outcome::Value(v),
            None => Outcome::Nothing,
        }
    }

    /// The value held by `Value`; any other variant is a caller error.
    pub fn unwrap_some(self) -> (r: T)
        requires
            self is Value,
        ensures
            r == self->Value_0,
    {
        match self {
            Outcome::Value(v) => v,
            Outcome::Nothing => { proof { assert(false); } unreached() },
            Outcome::Error(_) => { proof { assert(false); } unreached() },
        }
    }

    /// The value, or `or` when there is none.
    pub fn unwrap_some_or(self, or: T) -> (r: T)
        ensures
            r == (match self {
                Outcome::Value(v) => v,
                _ => or,
            }),
    {
        match self {
            Outcome::Value(v) => v,
            Outcome::Nothing => or,
            Outcome::Error(_e) => or,
        }
    }

    /// The error held by `Error`; any other variant is a caller error.
    pub fn unwrap_err(self) -> (r: E)
        requires
            self is Error,
        ensures
            r == self->Error_0,
    {
        match self {
            Outcome::Value(_v) => { proof { assert(false); } unreached() },
            Outcome::Nothing => { proof { assert(false); } unreached() },
            Outcome::Error(e) => e,
        }
    }

    /// The error, or `or` when there is none.
    pub fn unwrap_err_or(self, or: E) -> (r: E)
        ensures
            r == (match self {
                Outcome::Error(e) => e,
                _ => or,
            }),
    {
        match self {
            Outcome::Value(_v) => or,
            Outcome::Nothing => or,
            Outcome::Error(e) => e,
        }
    }

    /// Discards the error.
    pub fn ok(self) -> (r: Option<T>)
        ensures
            r == (match self {
                Outcome::Value(v) => Some(v),
                _ => None,
            }),
    {
        match self {
            Outcome::Value(v) => Some(v),
            Outcome::Nothing => None,
            Outcome::Error(_) => None,
        }
    }

    /// Turns `Nothing` into the error `or`.
    pub fn ok_or(self, or: E) -> (r: Result<T, E>)
        ensures
            r == (match self {
                Outcome::Value(v) => Ok(v),
                Outcome::Error(e) => Err(e),
                Outcome::Nothing => Err(or),
            }),
    {
        match self {
            Outcome::Value(v) => Ok(v),
            Outcome::Error(e) => Err(e),
            Outcome::Nothing => Err(or),
        }
    }

    pub fn only_ok(self) -> (r: OnlyOkOutcome<T, E>)
        ensures
            r.inner() == self,
    {
        OnlyOkOutcome { oc: self }
    }

    /// `Some` becomes a value, `None` becomes `Nothing`.
    pub fn from_option(value: Option<T>) -> (r: Self)
        ensures
            r == (match value {
                Some(v) => Outcome::<T, E>::Value(v),
                None => Outcome::<T, E>::Nothing,
            }),
    {
        match value {
            Some(v) => Outcome::Value(v),
            None => Outcome::Nothing,
        }
    }

    /// `Ok` becomes a value, `Err` becomes an error.
    pub fn from_result(value: Result<T, E>) -> (r: Self)
        ensures
            r == (match value {
                Ok(v) => Outcome::<T, E>::Value(v),
                Err(e) => Outcome::<T, E>::Error(e),
            }),
    {
        match value {
            Ok(v) => Outcome::Value(v),
            Err(e) => Outcome::Error(e),
        }
    }

    /// An error propagated into an outcome stays an error.
    pub fn from_residual(residual: E) -> (r: Self)
        ensures
            r == Outcome::<T, E>::Error(residual),
    {
        Outcome::Error(residual)
    }

    /// The inverse of `branch` on the values it continues with.
    pub fn from_output(output: Option<T>) -> (r: Self)
        ensures
            r == Self::output_of(output),
    {
        match output {
            Some(v) => Outcome::Value(v),
            None => Outcome::Nothing,
        }
    }

    /// Propagation: an error breaks out, a value or nothing continues as an `Option`.
    pub fn branch(self) -> (r: ControlFlow<E, Option<T>>)
        ensures
            r == self.branch_of(),
    {
        match self {
            Outcome::Value(v) => ControlFlow::Continue(Some(v)),
            Outcome::Nothing => ControlFlow::Continue(None),
            Outcome::Error(e) => ControlFlow::Break(e),
        }
    }
}

impl<T, E> OnlyOkOutcome<T, E> {
    pub closed spec fn inner(self) -> Outcome<T, E> {
        self.oc
    }

    /// Propagation of the wrapper: continues only on a value; `Nothing`
    /// breaks with `None`, an error with `Some`.
    pub open spec fn branch_of(self) -> ControlFlow<Option<E>, T> {
        match self.inner() {
            Outcome::Value(v) => ControlFlow::Continue(v),
            Outcome::Nothing => ControlFlow::Break(None),
            Outcome::Error(e) => ControlFlow::Break(Some(e)),
        }
    }

    /// The outcome a residual stands for.
    pub open spec fn residual_of(residual: Option<E>) -> Outcome<T, E> {
        match residual {
            None => Outcome::Nothing,
            Some(e) => Outcome::Error(e),
        }
    }

    /// The wrapped outcome.
    pub fn deref(&self) -> (r: &Outcome<T, E>)
        ensures
            *r == self.inner(),
    {
        &self.oc
    }

    /// The wrapped outcome, for changing in place.
    pub fn deref_mut(&mut self) -> (r: &mut Outcome<T, E>)
        ensures
            *r == old(self).inner(),
            final(self).inner() == *final(r),
    {
        &mut self.oc
    }

    /// `None` becomes `Nothing`, `Some(e)` becomes an error.
    pub fn from_residual(residual: Option<E>) -> (r: Self)
        ensures
            r.inner() == Self::residual_of(residual),
    {
        OnlyOkOutcome {
            oc: match residual {
                None => Outcome::Nothing,
                Some(e) => Outcome::Error(e),
            },
        }
    }

    pub fn from_output(output: T) -> (r: Self)
        ensures
            r.inner() == Outcome::<T, E>::Value(output),
    {
        OnlyOkOutcome { oc: Outcome::Value(output) }
    }

    /// Continues only on a value; `Nothing` breaks with `None`, an error with `Some`.
    pub fn branch(self) -> (r: ControlFlow<Option<E>, T>)
        ensures
            r == self.branch_of(),
    {
        match self.oc {
            Outcome::Value(v) => ControlFlow::Continue(v),
            Outcome::Nothing => ControlFlow::Break(None),
            Outcome::Error(e) => ControlFlow::Break(Some(e)),
        }
    }
}

/// Propagating an outcome and rebuilding it from what came out gives the
/// outcome back: `from_output` of what `branch` continues with, or
/// `from_residual` of what it breaks with.
pub proof fn law_branch_round_trip<T, E>(o: Outcome<T, E>)
    ensures
        match o.branch_of() {
            ControlFlow::Continue(x) => Outcome::<T, E>::output_of(x) == o,
            ControlFlow::Break(e) => Outcome::<T, E>::Error(e) == o,
        },
{
}

/// For the wrapper that continues only on a value, rebuilding from what
/// `branch` gives also gives the outcome back.
pub proof fn law_only_ok_round_trip<T, E>(o: OnlyOkOutcome<T, E>)
    ensures
        match o.branch_of() {
            ControlFlow::Continue(v) => Outcome::<T, E>::Value(v) == o.inner(),
            ControlFlow::Break(r) => OnlyOkOutcome::<T, E>::residual_of(r) == o.inner(),
        },
{
}

} // verus!
