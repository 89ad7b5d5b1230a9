//! Participant content: a named definition with a stamina budget, and a
//! live instance tracking current stamina.
//!
//! The combat state machine tracks only name presence per side; these types
//! carry the content an ability-execution front end works with.

use vstd::prelude::*;

verus! {

/// A participant definition: a name and the stamina it starts with.
#[derive(Debug, Clone)]
pub struct EntityDefinition {
    pub name: String,
    pub max_stamina: i32,
}

/// A live participant: an instance name, its definition, and its current
/// stamina.
pub struct Entity {
    instance_name: String,
    definition: EntityDefinition,
    current_stamina: i32,
}

/// Stamina set directly is clamped between zero and the definition's
/// maximum.
pub open spec fn clamp_stamina(health: int, max: int) -> int {
    let floored = if health >= 0 {
        health
    } else {
        0
    };
    if floored <= max {
        floored
    } else {
        max
    }
}

impl Entity {
    /// The instance name.
    pub closed spec fn name_of(&self) -> Seq<char> {
        self.instance_name@
    }

    /// The name of the definition the instance was created from.
    pub closed spec fn definition_name_of(&self) -> Seq<char> {
        self.definition.name@
    }

    /// The definition's stamina budget.
    pub closed spec fn max_of(&self) -> int {
        self.definition.max_stamina as int
    }

    /// The current stamina.
    pub closed spec fn health_of(&self) -> int {
        self.current_stamina as int
    }

    /// Creates an instance at the definition's full stamina.
    pub fn new(instance_name: String, definition: EntityDefinition) -> (r: Self)
        ensures
            r.name_of() == instance_name@,
            r.definition_name_of() == definition.name@,
            r.max_of() == definition.max_stamina as int,
            r.health_of() == definition.max_stamina as int,
    {
        let current_stamina = definition.max_stamina;
        Entity { instance_name, definition, current_stamina }
    }

    /// Creates an instance with the given current stamina, for restoring a
    /// participant that is already wounded.
    pub fn from_definition_with_health(
        instance_name: String,
        definition: EntityDefinition,
        current_health: i32,
    ) -> (r: Self)
        ensures
            r.name_of() == instance_name@,
            r.definition_name_of() == definition.name@,
            r.max_of() == definition.max_stamina as int,
            r.health_of() == current_health as int,
    {
        Entity { instance_name, definition, current_stamina: current_health }
    }

    /// The definition the instance was created from.
    pub fn definition(&self) -> (r: &EntityDefinition)
        ensures
            r.name@ == self.definition_name_of(),
            r.max_stamina as int == self.max_of(),
    {
        &self.definition
    }

    /// The current stamina.
    pub fn current_health(&self) -> (r: i32)
        ensures
            r as int == self.health_of(),
    {
        self.current_stamina
    }

    /// The definition's stamina budget.
    pub fn max_health(&self) -> (r: i32)
        ensures
            r as int == self.max_of(),
    {
        self.definition.max_stamina
    }

    /// The instance name.
    pub fn name(&self) -> (r: &String)
        ensures
            r@ == self.name_of(),
    {
        &self.instance_name
    }

    /// The name of the definition the instance was created from.
    pub fn definition_name(&self) -> (r: &String)
        ensures
            r@ == self.definition_name_of(),
    {
        &self.definition.name
    }

    /// Sets the current stamina, clamped between zero and the definition's
    /// maximum.
    pub fn set_health(&mut self, health: i32)
        ensures
            final(self).health_of() == clamp_stamina(health as int, old(self).max_of()),
            final(self).name_of() == old(self).name_of(),
            final(self).definition_name_of() == old(self).definition_name_of(),
            final(self).max_of() == old(self).max_of(),
    {
        let floored = if health >= 0 {
            health
        } else {
            0
        };
        self.current_stamina = if floored <= self.definition.max_stamina {
            floored
        } else {
            self.definition.max_stamina
        };
    }

    /// Reduces the current stamina by the given amount, to no less than
    /// zero. A negative amount raises stamina instead, without an upper
    /// clamp.
    pub fn damage(&mut self, amount: i32)
        requires
            old(self).health_of() - amount <= i32::MAX,
        ensures
            final(self).health_of() == if old(self).health_of() - amount >= 0 {
                old(self).health_of() - amount
            } else {
                0
            },
            final(self).name_of() == old(self).name_of(),
            final(self).definition_name_of() == old(self).definition_name_of(),
            final(self).max_of() == old(self).max_of(),
    {
        self.current_stamina = if amount >= self.current_stamina {
            0
        } else {
            self.current_stamina - amount
        };
    }

    /// Raises the current stamina by the given amount, to no more than the
    /// definition's maximum. A negative amount lowers stamina instead,
    /// without a lower clamp.
    pub fn heal(&mut self, amount: i32)
        requires
            i32::MIN <= old(self).health_of() + amount <= i32::MAX,
        ensures
            final(self).health_of() == if old(self).health_of() + amount <= old(self).max_of() {
                old(self).health_of() + amount
            } else {
                old(self).max_of()
            },
            final(self).name_of() == old(self).name_of(),
            final(self).definition_name_of() == old(self).definition_name_of(),
            final(self).max_of() == old(self).max_of(),
    {
        let raised = self.current_stamina + amount;
        self.current_stamina = if raised <= self.definition.max_stamina {
            raised
        } else {
            self.definition.max_stamina
        };
    }

    /// Whether the participant still has stamina left.
    pub fn is_alive(&self) -> (r: bool)
        ensures
            r == (self.health_of() > 0),
    {
        self.current_stamina > 0
    }
}

} // verus!
