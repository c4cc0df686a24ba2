//! Dice: skill tests, improvement tests, generic rolls, initiative.
pub mod attribute_roll;
pub mod battle;
pub mod croll;
pub mod dice_rng;
pub mod improve_roll;
pub mod modifier_dice;
pub mod query;
pub mod roll;
pub mod success_level;
