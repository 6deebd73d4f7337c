use vstd::prelude::*;

verus! {

/// How far a piece of work has come: not started (`Todo`), partly done
/// (`Partial`) or done (`Finished`), each with the value of that stage.
pub enum Progress<U, P, F> {
    Todo(U),
    Partial(P),
    Finished(F),
}

impl<U, P, F> Progress<U, P, F> {
    pub fn is_finished(&self) -> (r: bool)
        ensures
            r == (self is Finished),
    {
        match self {
            Progress::Finished(_) => true,
            _ => false,
        }
    }

    pub fn is_partially_finished(&self) -> (r: bool)
        ensures
            r == (self is Partial),
    {
        match self {
            Progress::Partial(_) => true,
            _ => false,
        }
    }

    /// Answers `true` for every stage, a finished one included.
    pub fn is_unfinished(&self) -> (r: bool)
        ensures
            r,
    {
        match self {
            Progress::Todo(_) => true,
            _ => true,
        }
    }

    pub fn unwrap_finished(self) -> (r: F)
        requires
            self is Finished,
        ensures
            r == self->Finished_0,
    {
        match self {
            Progress::Finished(f) => f,
            _ => {
                proof {
                    assert(false);
                }
                unreached()
            },
        }
    }

    pub fn unwrap_partially_finished(self) -> (r: P)
        requires
            self is Partial,
        ensures
            r == self->Partial_0,
    {
        match self {
            Progress::Partial(p) => p,
            _ => {
                proof {
                    assert(false);
                }
                unreached()
            },
        }
    }

    pub fn unwrap_unfinished(self) -> (r: U)
        requires
            self is Todo,
        ensures
            r == self->Todo_0,
    {
        match self {
            Progress::Todo(u) => u,
            _ => {
                proof {
                    assert(false);
                }
                unreached()
            },
        }
    }

    pub fn unwrap_finished_ref(&self) -> (r: &F)
        requires
            self is Finished,
        ensures
            *r == self->Finished_0,
    {
        match self {
            Progress::Finished(f) => f,
            _ => {
                proof {
                    assert(false);
                }
                unreached()
            },
        }
    }

    pub fn unwrap_partially_finished_ref(&self) -> (r: &P)
        requires
            self is Partial,
        ensures
            *r == self->Partial_0,
    {
        match self {
            Progress::Partial(p) => p,
            _ => {
                proof {
                    assert(false);
                }
                unreached()
            },
        }
    }

    pub fn unwrap_unfinished_ref(&self) -> (r: &U)
        requires
            self is Todo,
        ensures
            *r == self->Todo_0,
    {
        match self {
            Progress::Todo(u) => u,
            _ => {
                proof {
                    assert(false);
                }
                unreached()
            },
        }
    }
}

} // verus!
