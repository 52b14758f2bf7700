//! Object fixtures: a reference-counted host object exposed through the
//! handle manager.
//!
//! A [`Coveralls`] lives in a [`HandleMap`] registry once lowered; the
//! registry doubles as the leak probe — [`get_num_alive`] counts the
//! objects it still holds, taking the registry as explicit state instead
//! of a process-wide counter. A coveralls can hold a handle to another
//! (usually itself), exercising reference cycles across the boundary.

use vstd::prelude::*;

use crate::handle::HandleMap;

verus! {

/// The ways a coveralls operation can fail.
#[derive(Debug, Clone, Copy, PartialEq, Eq, Structural)]
pub enum CoverallError {
    TooManyHoles,
}

/// A host object with a name, possibly holding a handle to another
/// coveralls.
#[derive(Debug, PartialEq)]
pub struct Coveralls {
    pub name: String,
    pub other: Option<u64>,
}

impl Coveralls {
    /// A fresh coveralls with no other attached.
    pub fn new(name: String) -> (r: Coveralls)
        ensures
            r.name == name,
            r.other is None,
    {
        Coveralls { name, other: None }
    }

    /// A fresh coveralls, or [`CoverallError::TooManyHoles`] when asked
    /// to fail.
    pub fn fallible_new(name: String, should_fail: bool) -> (r: Result<Coveralls, CoverallError>)
        ensures
            should_fail ==> r == Err::<Coveralls, CoverallError>(CoverallError::TooManyHoles),
            !should_fail ==> (r matches Ok(c) && c.name == name && c.other is None),
    {
        if should_fail {
            Err(CoverallError::TooManyHoles)
        } else {
            Ok(Self::new(name))
        }
    }

    /// The object's name.
    pub fn get_name(&self) -> (r: String)
        ensures
            r == self.name,
    {
        self.name.clone()
    }

    /// Returns `true`, or throws when asked to.
    pub fn maybe_throw(&self, should_throw: bool) -> (r: Result<bool, CoverallError>)
        ensures
            should_throw ==> r == Err::<bool, CoverallError>(CoverallError::TooManyHoles),
            !should_throw ==> r == Ok::<bool, CoverallError>(true),
    {
        if should_throw {
            Err(CoverallError::TooManyHoles)
        } else {
            Ok(true)
        }
    }

    /// Stores a handle to another coveralls (or clears it).
    pub fn take_other(&mut self, other: Option<u64>)
        ensures
            final(self).other == other,
            final(self).name == old(self).name,
    {
        self.other = other;
    }

    /// The stored handle to the other coveralls, if any.
    pub fn get_other(&self) -> (r: Option<u64>)
        ensures
            r == self.other,
    {
        self.other
    }

    /// Always fails: there is no other to take.
    pub fn take_other_fallible(&self) -> (r: Result<(), CoverallError>)
        ensures
            r == Err::<(), CoverallError>(CoverallError::TooManyHoles),
    {
        Err(CoverallError::TooManyHoles)
    }

    /// A new coveralls with the same name and the same other.
    pub fn clone_me(&self) -> (r: Coveralls)
        ensures
            r.name == self.name,
            r.other == self.other,
    {
        Coveralls { name: self.name.clone(), other: self.other }
    }
}

/// Counts the coveralls still alive in the registry: the leak probe the
/// tests watch.
pub fn get_num_alive(registry: &HandleMap<Coveralls>) -> (n: u64)
    requires
        registry.num_live() <= u64::MAX,
    ensures
        n == registry.num_live(),
{
    registry.live_objects()
}

/// The colors a patch comes in.
#[derive(Debug, Clone, Copy, PartialEq, Eq, Structural)]
pub enum Color {
    Red,
    Blue,
    Green,
}

/// A colored patch.
#[derive(Debug, Clone, Copy, PartialEq, Eq, Structural)]
pub struct Patch {
    pub color: Color,
}

impl Patch {
    /// A patch of the given color.
    pub fn new(color: Color) -> (r: Patch)
        ensures
            r.color == color,
    {
        Patch { color }
    }

    /// The patch's color.
    pub fn get_color(&self) -> (r: Color)
        ensures
            r == self.color,
    {
        self.color
    }
}

} // verus!
