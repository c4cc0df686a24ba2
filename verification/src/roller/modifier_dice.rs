//! Bonus and penalty dice of a skill test.
use crate::locale::LocaleTag;
use vstd::prelude::*;

verus! {

#[derive(Debug, PartialEq, Eq, Clone, Copy, Structural)]
pub enum ModifierDiceType {
    Bonus,
    Penalty,
}

/// A number of bonus or of penalty dice.
#[derive(Debug, PartialEq, Eq, Clone, Copy, Structural)]
pub struct ModifierDice {
    pub dice_type: ModifierDiceType,
    pub count: i32,
}

impl ModifierDiceType {
    pub fn to_locale_tag(&self) -> (r: LocaleTag)
        ensures
            r == (match *self {
                ModifierDiceType::Bonus => LocaleTag::Bonus,
                ModifierDiceType::Penalty => LocaleTag::Penalty,
            }),
    {
        match self {
            ModifierDiceType::Bonus => LocaleTag::Bonus,
            ModifierDiceType::Penalty => LocaleTag::Penalty,
        }
    }
}

impl ModifierDice {
    pub fn new(dice_type: ModifierDiceType, count: i32) -> (r: Self)
        ensures
            r == (ModifierDice { dice_type, count }),
    {
        ModifierDice { dice_type, count }
    }
}

} // verus!
