//! A named non-player character.

use vstd::prelude::*;

verus! {

/// A non-player character, identified by name.
#[derive(Debug, Clone, PartialEq, Eq, Hash)]
pub struct NPC {
    name: String,
}

impl NPC {
    /// Creates a non-player character with the given name.
    pub fn new(name: String) -> (r: Self)
        ensures
            r.name_of() == name@,
    {
        NPC { name }
    }

    /// The character's name.
    pub closed spec fn name_of(&self) -> Seq<char> {
        self.name@
    }

    /// The character's name.
    pub fn name(&self) -> (r: &String)
        ensures
            r@ == self.name_of(),
    {
        &self.name
    }
}

} // verus!
