//! Error fixtures: the shapes of failure a component can expose.
//!
//! A component reports failures either as a plain error enum
//! ([`EnumError`]) or as an error interface ([`ErrorInterface`]): an
//! object carrying a chain of causes, handed across the boundary like any
//! other object. Internal error types ([`InternalError`]) convert into the public
//! enum at the boundary.

use vstd::prelude::*;
use vstd::string::StringExecFns;

verus! {

/// An error exposed to foreign bindings as an interface: it carries its
/// chain of causes, outermost first.
#[derive(Debug, PartialEq)]
pub struct ErrorInterface {
    pub causes: Vec<String>,
}

impl ErrorInterface {
    /// An error interface with one cause.
    pub fn new(message: String) -> (r: ErrorInterface)
        ensures
            r.causes@ == seq![message],
    {
        let causes = vec![message];
        proof {
            assert(causes@ =~= seq![message]);
        }
        ErrorInterface { causes }
    }

    /// The whole chain of causes, outermost first.
    pub fn chain(&self) -> (r: Vec<String>)
        ensures
            r@ == self.causes@,
    {
        let mut out: Vec<String> = Vec::new();
        let n = self.causes.len();
        let mut i: usize = 0;
        proof {
            assert(out@ =~= self.causes@.subrange(0, 0));
        }
        while i < n
            invariant
                i <= n,
                n == self.causes@.len(),
                out@ == self.causes@.subrange(0, i as int),
            decreases n - i,
        {
            out.push(self.causes[i].clone());
            i = i + 1;
            assert(out@ =~= self.causes@.subrange(0, i as int));
        }
        proof {
            assert(self.causes@.subrange(0, n as int) =~= self.causes@);
        }
        out
    }

    /// The cause at position `ndx` of the chain, if the chain is that
    /// long.
    pub fn link(&self, ndx: u64) -> (r: Option<String>)
        ensures
            ndx < self.causes@.len() ==> r == Some(self.causes@[ndx as int]),
            ndx >= self.causes@.len() ==> r is None,
    {
        let n = self.causes.len();
        if ndx < n as u64 {
            let i = ndx as usize;
            Some(self.causes[i].clone())
        } else {
            None
        }
    }
}

/// A foreign-implementable view of an error value.
pub trait ErrorTrait {
    /// The outermost message of the error.
    fn message(&self) -> String;
}

impl ErrorTrait for ErrorInterface {
    fn message(&self) -> String {
        if self.causes.len() > 0 {
            self.causes[0].clone()
        } else {
            String::new()
        }
    }
}

/// The public error enum a component exposes.
#[derive(Debug, Clone, Copy, PartialEq, Eq, Structural)]
pub enum EnumError {
    Oops,
}

/// An internal error type; it converts into [`EnumError`] at the
/// boundary.
#[derive(Debug, Clone, Copy, PartialEq, Eq, Structural)]
pub enum InternalError {
    BadThing1,
}

impl From<InternalError> for EnumError {
    /// Every internal error surfaces as [`EnumError::Oops`].
    fn from(e: InternalError) -> (r: Self) {
        EnumError::Oops
    }
}

impl vstd::std_specs::convert::FromSpecImpl<InternalError> for EnumError {
    open spec fn obeys_from_spec() -> bool {
        true
    }

    open spec fn from_spec(e: InternalError) -> Self {
        EnumError::Oops
    }
}

/// An operation that fails with the public error enum.
pub fn simple() -> (r: Result<(), EnumError>)
    ensures
        r == Err::<(), EnumError>(EnumError::Oops),
{
    Err(EnumError::Oops)
}

/// An operation that fails with an error interface whose chain is the one
/// message "oops".
pub fn oops() -> (r: Result<(), ErrorInterface>)
    ensures
        r matches Err(e) && e.causes@.len() == 1 && e.causes@[0]@ == "oops"@,
{
    Err(ErrorInterface::new(String::from_str("oops")))
}

/// An operation that fails with an internal error; callers convert it
/// through `From` at the boundary.
pub fn poopse() -> (r: Result<(), InternalError>)
    ensures
        r == Err::<(), InternalError>(InternalError::BadThing1),
{
    Err(InternalError::BadThing1)
}

/// Builds an error interface around a message; the error interface can be
/// used as a regular interface too.
pub fn get_error(message: String) -> (r: ErrorInterface)
    ensures
        r.causes@ == seq![message],
{
    ErrorInterface::new(message)
}

/// An object whose constructor and methods exercise failure paths.
#[derive(Debug, PartialEq)]
pub struct ErrorThrower {}

impl ErrorThrower {
    /// Constructs the object, or fails with "oops" when asked to.
    pub fn new(ok: bool) -> (r: Result<ErrorThrower, ErrorInterface>)
        ensures
            ok ==> r == Ok::<ErrorThrower, ErrorInterface>(ErrorThrower {  }),
            !ok ==> (r matches Err(e) && e.causes@.len() == 1 && e.causes@[0]@ == "oops"@),
    {
        if ok {
            Ok(ErrorThrower {  })
        } else {
            Err(ErrorInterface::new(String::from_str("oops")))
        }
    }

    /// Always fails, with "threw".
    pub fn throw(&self) -> (r: Result<(), ErrorInterface>)
        ensures
            r matches Err(e) && e.causes@.len() == 1 && e.causes@[0]@ == "threw"@,
    {
        Err(ErrorInterface::new(String::from_str("threw")))
    }
}

} // verus!
