//! Levels of success of a skill test.
use crate::locale::{
    spec_locale_entry, spec_locale_tags, spec_tag_by_str, spec_tag_matches, spec_text, locale_tag_by_str,
    locale_text_by_tag_lang, LocaleLang, LocaleTag,
};
use vstd::prelude::*;

verus! {

/// Quotient rounded toward zero, as Rust's `/` on integers computes it.
pub open spec fn spec_div_trunc(a: int, b: int) -> int {
    if a >= 0 {
        a / b
    } else {
        -((-a) / b)
    }
}

/// `a / b` on `i32`, rounded toward zero.
pub fn div_trunc(a: i32, b: i32) -> (r: i32)
    requires
        b > 0,
    ensures
        r == spec_div_trunc(a as int, b as int),
{
    if a >= 0 {
        a / b
    } else {
        let m: i64 = -(a as i64);
        let q: i64 = m / (b as i64);
        (-q) as i32
    }
}

#[derive(Debug, Eq, PartialEq, Clone, Copy, Structural, PartialOrd, Ord)]
pub enum SuccessLevel {
    CriticalFailure,
    Failure,
    Success,
    HardSuccess,
    ExtremeSuccess,
    CriticalSuccess,
}

/// Why a tag names no level that luck can be spent to reach.
#[derive(Debug, Eq, PartialEq, Clone, Copy, Structural)]
pub enum SuccessLevelError {
    NotALevel,
}

pub open spec fn spec_rank(l: SuccessLevel) -> u8 {
    match l {
        SuccessLevel::CriticalFailure => 0,
        SuccessLevel::Failure => 1,
        SuccessLevel::Success => 2,
        SuccessLevel::HardSuccess => 3,
        SuccessLevel::ExtremeSuccess => 4,
        SuccessLevel::CriticalSuccess => 5,
    }
}

/// The roll that a level needs at most (at least, for the failures), for a
/// skill of value `threshold`.
pub open spec fn spec_level_threshold(l: SuccessLevel, threshold: int) -> int {
    match l {
        SuccessLevel::CriticalFailure => if threshold < 50 { 96 } else { 100 },
        SuccessLevel::Failure => threshold - 1,
        SuccessLevel::Success => threshold,
        SuccessLevel::HardSuccess => {
            let h = spec_div_trunc(threshold, 2);
            if h > 1 { h } else { 1 }
        },
        SuccessLevel::ExtremeSuccess => {
            let e = spec_div_trunc(threshold, 5);
            if e > 1 { e } else { 1 }
        },
        SuccessLevel::CriticalSuccess => 100,
    }
}

pub open spec fn spec_level_tag(l: SuccessLevel) -> LocaleTag {
    match l {
        SuccessLevel::CriticalFailure => LocaleTag::CriticalFailure,
        SuccessLevel::Failure => LocaleTag::Failure,
        SuccessLevel::Success => LocaleTag::Success,
        SuccessLevel::HardSuccess => LocaleTag::HardSuccess,
        SuccessLevel::ExtremeSuccess => LocaleTag::ExtremeSuccess,
        SuccessLevel::CriticalSuccess => LocaleTag::CriticalSuccess,
    }
}

/// The next level that luck points can buy, from a failure up to an
/// extreme success.
pub open spec fn spec_next_level(l: SuccessLevel) -> Option<SuccessLevel> {
    match l {
        SuccessLevel::Failure => Some(SuccessLevel::Success),
        SuccessLevel::Success => Some(SuccessLevel::HardSuccess),
        SuccessLevel::HardSuccess => Some(SuccessLevel::ExtremeSuccess),
        _ => None,
    }
}

/// The level that a tag names, where it names one.
pub open spec fn spec_level_of_tag(tag: LocaleTag) -> Option<SuccessLevel> {
    match tag {
        LocaleTag::CriticalFailure => Some(SuccessLevel::CriticalFailure),
        LocaleTag::Failure => Some(SuccessLevel::Failure),
        LocaleTag::Success => Some(SuccessLevel::Success),
        LocaleTag::HardSuccess => Some(SuccessLevel::HardSuccess),
        LocaleTag::ExtremeSuccess => Some(SuccessLevel::ExtremeSuccess),
        LocaleTag::CriticalSuccess => Some(SuccessLevel::CriticalSuccess),
        _ => None,
    }
}

/// The colour that shows a level.
pub open spec fn spec_level_hex(l: SuccessLevel) -> u32 {
    match l {
        SuccessLevel::CriticalFailure => 0xBE29ECu32,
        SuccessLevel::Failure => 0x800080u32,
        SuccessLevel::Success => 0x415D43u32,
        SuccessLevel::HardSuccess => 0x709775u32,
        SuccessLevel::ExtremeSuccess => 0x8FB996u32,
        SuccessLevel::CriticalSuccess => 0xB3CBB9u32,
    }
}

impl SuccessLevel {
    pub fn rank(&self) -> (r: u8)
        ensures
            r == spec_rank(*self),
    {
        match self {
            SuccessLevel::CriticalFailure => 0,
            SuccessLevel::Failure => 1,
            SuccessLevel::Success => 2,
            SuccessLevel::HardSuccess => 3,
            SuccessLevel::ExtremeSuccess => 4,
            SuccessLevel::CriticalSuccess => 5,
        }
    }

    /// The colour that shows the level.
    pub fn hex(&self) -> (r: u32)
        ensures
            r == spec_level_hex(*self),
    {
        match self {
            SuccessLevel::CriticalFailure => 0xBE29EC,
            SuccessLevel::Failure => 0x800080,
            SuccessLevel::Success => 0x415D43,
            SuccessLevel::HardSuccess => 0x709775,
            SuccessLevel::ExtremeSuccess => 0x8FB996,
            SuccessLevel::CriticalSuccess => 0xB3CBB9,
        }
    }

    pub fn threshold(&self, threshold: i32) -> (r: i32)
        requires
            threshold > i32::MIN,
        ensures
            r == spec_level_threshold(*self, threshold as int),
    {
        match self {
            SuccessLevel::CriticalFailure => {
                if threshold < 50 {
                    96
                } else {
                    100
                }
            },
            SuccessLevel::Failure => threshold - 1,
            SuccessLevel::Success => threshold,
            SuccessLevel::HardSuccess => {
                let h = div_trunc(threshold, 2);
                if h > 1 { h } else { 1 }
            },
            SuccessLevel::ExtremeSuccess => {
                let e = div_trunc(threshold, 5);
                if e > 1 { e } else { 1 }
            },
            SuccessLevel::CriticalSuccess => 100,
        }
    }

    pub fn to_locale_tag(self) -> (r: LocaleTag)
        ensures
            r == spec_level_tag(self),
    {
        match self {
            SuccessLevel::CriticalFailure => LocaleTag::CriticalFailure,
            SuccessLevel::Failure => LocaleTag::Failure,
            SuccessLevel::Success => LocaleTag::Success,
            SuccessLevel::HardSuccess => LocaleTag::HardSuccess,
            SuccessLevel::ExtremeSuccess => LocaleTag::ExtremeSuccess,
            SuccessLevel::CriticalSuccess => LocaleTag::CriticalSuccess,
        }
    }

    /// How far `result` lies from the roll that this level needs.
    pub fn delta(&self, result: i32, threshold: i32) -> (r: i32)
        requires
            threshold > i32::MIN,
            i32::MIN <= result - spec_level_threshold(*self, threshold as int) <= i32::MAX,
        ensures
            r == result - spec_level_threshold(*self, threshold as int),
    {
        result - self.threshold(threshold)
    }

    /// The level's name in a language.
    pub fn to_string_lang(self, lang: LocaleLang) -> (r: String)
        ensures
            r@ == spec_text(spec_locale_entry(spec_level_tag(self))->0, lang),
    {
        locale_text_by_tag_lang(lang, self.to_locale_tag())
    }

    /// The level's name in the default language.
    pub fn to_default_string(self) -> (r: String)
        ensures
            r@ == spec_text(spec_locale_entry(spec_level_tag(self))->0, LocaleLang::English),
    {
        self.to_string_lang(LocaleLang::English)
    }

    /// The level that can be bought with luck, from its tag.
    pub fn from_tag(tag: LocaleTag) -> (r: Result<Self, SuccessLevelError>)
        ensures
            tag == LocaleTag::Success ==> r == Ok::<SuccessLevel, SuccessLevelError>(SuccessLevel::Success),
            tag == LocaleTag::HardSuccess ==> r == Ok::<SuccessLevel, SuccessLevelError>(SuccessLevel::HardSuccess),
            tag == LocaleTag::ExtremeSuccess ==> r == Ok::<SuccessLevel, SuccessLevelError>(SuccessLevel::ExtremeSuccess),
            tag != LocaleTag::Success && tag != LocaleTag::HardSuccess && tag != LocaleTag::ExtremeSuccess
                ==> r == Err::<SuccessLevel, SuccessLevelError>(SuccessLevelError::NotALevel),
    {
        match tag {
            LocaleTag::Success => Ok(SuccessLevel::Success),
            LocaleTag::HardSuccess => Ok(SuccessLevel::HardSuccess),
            LocaleTag::ExtremeSuccess => Ok(SuccessLevel::ExtremeSuccess),
            _ => Err(SuccessLevelError::NotALevel),
        }
    }

    /// The level whose name, in either language, is `s`, ignoring ASCII case.
    /// Where a text of the table matches `s` and names no level, or none
    /// matches, there is an error.
    pub fn from_text(s: &str) -> (r: Result<Self, SuccessLevelError>)
        ensures
            r == (match spec_tag_by_str(s@) {
                Some(t) => match spec_level_of_tag(t) {
                    Some(l) => Ok::<SuccessLevel, SuccessLevelError>(l),
                    None => Err(SuccessLevelError::NotALevel),
                },
                None => Err(SuccessLevelError::NotALevel),
            }),
            r matches Ok(l) ==> spec_tag_matches(spec_level_tag(l), s@),
    {
        match locale_tag_by_str(s) {
            Some(tag) => match tag {
                LocaleTag::CriticalFailure => Ok(SuccessLevel::CriticalFailure),
                LocaleTag::Failure => Ok(SuccessLevel::Failure),
                LocaleTag::Success => Ok(SuccessLevel::Success),
                LocaleTag::HardSuccess => Ok(SuccessLevel::HardSuccess),
                LocaleTag::ExtremeSuccess => Ok(SuccessLevel::ExtremeSuccess),
                LocaleTag::CriticalSuccess => Ok(SuccessLevel::CriticalSuccess),
                _ => Err(SuccessLevelError::NotALevel),
            },
            None => Err(SuccessLevelError::NotALevel),
        }
    }

    /// Steps to the next level that luck can buy and returns it; at the
    /// end of that ladder returns `None` and stays.
    pub fn next(&mut self) -> (r: Option<SuccessLevel>)
        ensures
            r == spec_next_level(*old(self)),
            *final(self) == (match r {
                Some(l) => l,
                None => *old(self),
            }),
    {
        let next = match self {
            SuccessLevel::Failure => SuccessLevel::Success,
            SuccessLevel::Success => SuccessLevel::HardSuccess,
            SuccessLevel::HardSuccess => SuccessLevel::ExtremeSuccess,
            _ => return None,
        };
        *self = next;
        Some(next)
    }
}

} // verus!
