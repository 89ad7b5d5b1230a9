//! A named player character.

use vstd::prelude::*;

verus! {

/// A player character, identified by name.
#[derive(Debug, Clone, PartialEq, Eq, Hash)]
pub struct PC {
    name: String,
}

impl PC {
    /// Creates a player character with the given name.
    pub fn new(name: String) -> (r: Self)
        ensures
            r.name_of() == name@,
    {
        PC { name }
    }

    /// The character's name.
    pub closed spec fn name_of(&self) -> Seq<char> {
        self.name@
    }

    /// The character's name.
    pub fn name(&self) -> (r: &String)
        ensures
            r@ == self.name_of(),
    {
        &self.name
    }
}

} // verus!
