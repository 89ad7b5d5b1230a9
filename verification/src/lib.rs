//! A turn-order engine for a two-sided tabletop combat simulator.
//!
//! The crate has two verified cores: a combat state machine that decides
//! whose turn it is and enforces that every registered participant acts
//! exactly once per round, and a power-roll resolver that maps a randomized
//! dice roll plus advantage/disadvantage modifiers to a discrete outcome
//! tier.

pub mod ability;
pub mod combat;
pub mod dice;
pub mod entity;
pub mod index_set;
pub mod npc;
pub mod pc;

pub use ability::{Ability, PowerRoll};
pub use combat::{BattleParameters, BattleState, CombatError, TurnSide};
pub use dice::{power_roll, roll, rolld10s, rolld3s, to_power_roll, to_tier, total_roll};
pub use dice::{BaneState, EdgeState, PowerRollResultTier};
pub use entity::{Entity, EntityDefinition};
pub use npc::NPC;
pub use pc::PC;
