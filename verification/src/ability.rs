//! Ability definitions: a named ability with exactly three tiered power
//! rolls, one per outcome tier.

use vstd::prelude::*;

verus! {

/// One tier's effect of an ability.
#[derive(Debug, Clone)]
pub struct PowerRoll {
    pub damage: i32,
}

/// A named ability with one power roll per outcome tier.
#[derive(Debug, Clone)]
pub struct Ability {
    pub name: String,
    power_roll_1: PowerRoll,
    power_roll_2: PowerRoll,
    power_roll_3: PowerRoll,
}

impl Ability {
    /// The ability's name.
    pub closed spec fn name_of(&self) -> Seq<char> {
        self.name@
    }

    /// The damage of each tier's power roll, lowest tier first.
    pub closed spec fn damages_of(&self) -> Seq<int> {
        seq![
            self.power_roll_1.damage as int,
            self.power_roll_2.damage as int,
            self.power_roll_3.damage as int,
        ]
    }

    /// Builds an ability from its tiered power rolls, lowest tier first.
    pub fn new(name: String, power_roll_1: PowerRoll, power_roll_2: PowerRoll, power_roll_3: PowerRoll) -> (r: Self)
        ensures
            r.name_of() == name@,
            r.damages_of() == seq![
                power_roll_1.damage as int,
                power_roll_2.damage as int,
                power_roll_3.damage as int,
            ],
    {
        Ability { name, power_roll_1, power_roll_2, power_roll_3 }
    }

    /// The power rolls as an array of exactly three elements, lowest tier
    /// first.
    pub fn power_rolls(&self) -> (r: [&PowerRoll; 3])
        ensures
            r@.len() == 3,
            forall|i: int| 0 <= i < 3 ==> #[trigger] r@[i].damage as int == self.damages_of()[i],
    {
        [&self.power_roll_1, &self.power_roll_2, &self.power_roll_3]
    }
}

} // verus!
