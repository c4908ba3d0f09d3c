use core::ops::ControlFlow;
use vstd::prelude::*;

verus! {

/// A value that stands for a success or for a failure, and can be turned into
/// a `Result` that says which.
///
/// `extracted` is that `Result`, as a mathematical function of the value;
/// `try_extract` computes it.
pub trait TryExtract<'a>: Sized {
    /// What a success carries.
    type Ok;

    /// What a failure carries.
    type Err;

    spec fn extracted(self) -> Result<Self::Ok, Self::Err>;

    fn try_extract(self) -> (res: Result<Self::Ok, Self::Err>)
        ensures
            res == self.extracted(),
    ;
}

impl<'a, T, E> TryExtract<'a> for Result<T, E> {
    type Ok = T;

    type Err = E;

    /// A `Result` is its own extraction.
    open spec fn extracted(self) -> Result<T, E> {
        self
    }

    fn try_extract(self) -> (res: Result<T, E>) {
        self
    }
}

impl<'a, T, E> TryExtract<'a> for &'a Result<T, E> {
    type Ok = &'a T;

    type Err = &'a E;

    /// A borrowed `Result` gives its value or its error, borrowed.
    open spec fn extracted(self) -> Result<&'a T, &'a E> {
        match self {
            Ok(value) => Ok(value),
            Err(error) => Err(error),
        }
    }

    fn try_extract(self) -> (res: Result<&'a T, &'a E>) {
        self.as_ref()
    }
}

impl<T> TryExtract<'_> for Option<T> {
    type Ok = T;

    type Err = ();

    /// `Some` is a success; `None` is a failure that carries nothing.
    open spec fn extracted(self) -> Result<T, ()> {
        match self {
            Some(value) => Ok(value),
            None => Err(()),
        }
    }

    fn try_extract(self) -> (res: Result<T, ()>) {
        self.ok_or(())
    }
}

impl<'a, T> TryExtract<'a> for &'a Option<T> {
    type Ok = &'a T;

    type Err = ();

    /// A borrowed `Some` gives its value, borrowed; `None` is a failure that
    /// carries nothing.
    open spec fn extracted(self) -> Result<&'a T, ()> {
        match self {
            Some(value) => Ok(value),
            None => Err(()),
        }
    }

    fn try_extract(self) -> (res: Result<&'a T, ()>) {
        self.as_ref().ok_or(())
    }
}

impl<C, B> TryExtract<'_> for ControlFlow<B, C> {
    type Ok = C;

    type Err = B;

    /// `Continue` is a success; `Break` is a failure that carries what the
    /// break carries.
    open spec fn extracted(self) -> Result<C, B> {
        match self {
            ControlFlow::Continue(c) => Ok(c),
            ControlFlow::Break(b) => Err(b),
        }
    }

    fn try_extract(self) -> (res: Result<C, B>) {
        match self {
            ControlFlow::Continue(c) => Ok(c),
            ControlFlow::Break(b) => Err(b),
        }
    }
}

impl<'a, C, B> TryExtract<'a> for &'a ControlFlow<B, C> {
    type Ok = &'a C;

    type Err = &'a B;

    /// As for an owned `ControlFlow`, with what it carries borrowed.
    open spec fn extracted(self) -> Result<&'a C, &'a B> {
        match self {
            ControlFlow::Continue(c) => Ok(c),
            ControlFlow::Break(b) => Err(b),
        }
    }

    fn try_extract(self) -> (res: Result<&'a C, &'a B>) {
        match self {
            ControlFlow::Continue(c) => Ok(c),
            ControlFlow::Break(b) => Err(b),
        }
    }
}

} // verus!
