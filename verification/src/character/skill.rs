//! Skills of a character and the tables of the skills that every sheet has.
use crate::locale::{LocaleEntry, LocaleLang, LocaleTag};
use vstd::prelude::*;

verus! {

/// A skill: its name in both languages, its value, and how it may change.
#[derive(Debug)]
pub struct Skill {
    pub name: LocaleEntry,
    pub value: i32,
    pub to_improve: bool,
    pub improvable: bool,
    pub default: bool,
    pub constant: bool,
}

/// What a skill holds, with its name as plain text.
pub struct SkillView {
    pub name: (Seq<char>, Seq<char>),
    pub value: i32,
    pub to_improve: bool,
    pub improvable: bool,
    pub default: bool,
    pub constant: bool,
}

impl View for Skill {
    type V = SkillView;

    open spec fn view(&self) -> SkillView {
        SkillView {
            name: self.name@,
            value: self.value,
            to_improve: self.to_improve,
            improvable: self.improvable,
            default: self.default,
            constant: self.constant,
        }
    }
}

impl Default for Skill {
    /// A skill with no name, the value 0 and every flag off.
    fn default() -> (r: Self)
        ensures
            r@ == (SkillView {
                name: (Seq::<char>::empty(), Seq::<char>::empty()),
                value: 0,
                to_improve: false,
                improvable: false,
                default: false,
                constant: false,
            }),
    {
        Skill { name: LocaleEntry::default(), value: 0, to_improve: false, improvable: false, default: false, constant: false }
    }
}

impl Clone for Skill {
    fn clone(&self) -> (r: Self)
        ensures
            r@ == self@,
    {
        Skill {
            name: self.name.clone(),
            value: self.value,
            to_improve: self.to_improve,
            improvable: self.improvable,
            default: self.default,
            constant: self.constant,
        }
    }
}

/// A skill with the given flags; it is not marked for improvement.
pub open spec fn spec_skill(name: (Seq<char>, Seq<char>), value: i32, improvable: bool, default: bool, constant: bool) -> SkillView {
    SkillView { name, value, to_improve: false, improvable, default, constant }
}

/// Why a change of the skills was refused.
#[derive(Debug)]
pub enum SkillError {
    AlreadyExists(String),
    CantRemove(String),
    Constant(LocaleEntry),
    NoSuchSkill(String),
}

/// The message of a refusal, in a language.
pub open spec fn spec_skill_error_text(e: &SkillError, lang: LocaleLang) -> Seq<char> {
    match (e, lang) {
        (SkillError::AlreadyExists(n), LocaleLang::Polski) => "Umiejętność `"@ + n@ + "` już istnieje."@,
        (SkillError::AlreadyExists(n), LocaleLang::English) => "Skill `"@ + n@ + "` already exists."@,
        (SkillError::CantRemove(n), LocaleLang::Polski) => "Nie można usunąć podstawowej umiejętności `"@ + n@ + "`."@,
        (SkillError::CantRemove(n), LocaleLang::English) => "Can't remove basic skill `"@ + n@ + "`."@,
        (SkillError::Constant(n), LocaleLang::Polski) => "Umiejętności `"@ + n.pl@ + "` nie można modyfikować."@,
        (SkillError::Constant(n), LocaleLang::English) => "Skill `"@ + n.en@ + "` can't be modified."@,
        (SkillError::NoSuchSkill(n), LocaleLang::Polski) => "Nie ma takiej umiejętności `"@ + n@ + "`."@,
        (SkillError::NoSuchSkill(n), LocaleLang::English) => "No such skill `"@ + n@ + "`"@,
    }
}

/// `a`, then `b`, then `c`, as one string.
pub(crate) fn concat3(a: &str, b: &str, c: &str) -> (r: String)
    ensures
        r@ == a@ + b@ + c@,
{
    let mut s = String::from_str(a);
    s.append(b);
    s.append(c);
    s
}

impl SkillError {
    pub fn to_string(&self, lang: LocaleLang) -> (r: String)
        ensures
            r@ == spec_skill_error_text(self, lang),
    {
        match (self, lang) {
            (SkillError::AlreadyExists(n), LocaleLang::Polski) => concat3("Umiejętność `", n.as_str(), "` już istnieje."),
            (SkillError::AlreadyExists(n), LocaleLang::English) => concat3("Skill `", n.as_str(), "` already exists."),
            (SkillError::CantRemove(n), LocaleLang::Polski) => concat3("Nie można usunąć podstawowej umiejętności `", n.as_str(), "`."),
            (SkillError::CantRemove(n), LocaleLang::English) => concat3("Can't remove basic skill `", n.as_str(), "`."),
            (SkillError::Constant(n), LocaleLang::Polski) => concat3("Umiejętności `", n.pl.as_str(), "` nie można modyfikować."),
            (SkillError::Constant(n), LocaleLang::English) => concat3("Skill `", n.en.as_str(), "` can't be modified."),
            (SkillError::NoSuchSkill(n), LocaleLang::Polski) => concat3("Nie ma takiej umiejętności `", n.as_str(), "`."),
            (SkillError::NoSuchSkill(n), LocaleLang::English) => concat3("No such skill `", n.as_str(), "`"),
        }
    }
}

impl Skill {
    /// A skill of every sheet that improves with use.
    pub fn new_default(text: LocaleEntry, value: i32) -> (r: Self)
        ensures
            r@ == spec_skill(text@, value, true, true, false),
    {
        Skill { name: text, value, to_improve: false, improvable: true, default: true, constant: false }
    }

    /// A skill of every sheet that does not improve with use.
    pub fn new_default_unimprovable(text: LocaleEntry, value: i32) -> (r: Self)
        ensures
            r@ == spec_skill(text@, value, false, true, false),
    {
        Skill { name: text, value, to_improve: false, improvable: false, default: true, constant: false }
    }

    /// Another name for [`Skill::new_default_unimprovable`].
    pub fn new_default_const(text: LocaleEntry, value: i32) -> (r: Self)
        ensures
            r@ == spec_skill(text@, value, false, true, false),
    {
        Skill::new_default_unimprovable(text, value)
    }

    /// A skill of every sheet whose value cannot be changed.
    pub fn new_default_constant(text: LocaleEntry, value: i32) -> (r: Self)
        ensures
            r@ == spec_skill(text@, value, false, true, true),
    {
        Skill { name: text, value, to_improve: false, improvable: false, default: true, constant: true }
    }

    /// A skill that the player added.
    pub fn new_custom(text: LocaleEntry, value: i32) -> (r: Self)
        ensures
            r@ == spec_skill(text@, value, true, false, false),
    {
        Skill { name: text, value, to_improve: false, improvable: true, default: false, constant: false }
    }

    /// Sets the value, unless the skill is constant.
    pub fn set(&mut self, value: i32) -> (r: Result<(), SkillError>)
        ensures
            old(self).constant ==> (r matches Err(SkillError::Constant(n)) && n@ == old(self).name@)
                && final(self)@ == old(self)@,
            !old(self).constant ==> r is Ok && final(self)@ == (SkillView { value, ..old(self)@ }),
    {
        if self.constant {
            return Err(SkillError::Constant(self.name.clone()));
        }
        self.value = value;
        Ok(())
    }

    /// Adds `value` to the value, unless the skill is constant.
    pub fn modify(&mut self, value: i32) -> (r: Result<(), SkillError>)
        requires
            i32::MIN <= old(self).value + value <= i32::MAX,
        ensures
            old(self).constant ==> (r matches Err(SkillError::Constant(n)) && n@ == old(self).name@)
                && final(self)@ == old(self)@,
            !old(self).constant ==> r is Ok
                && final(self)@ == (SkillView { value: (old(self).value + value) as i32, ..old(self)@ }),
    {
        let v = self.value + value;
        self.set(v)
    }
}

/// The skills of every sheet that improve with use, with their base values; language (own) and dodge take theirs from education and dexterity.
pub open spec fn spec_default_skill_table() -> Seq<(LocaleTag, i32)> {
    seq![
        (LocaleTag::Accounting, 5i32),
        (LocaleTag::Anthropology, 1i32),
        (LocaleTag::Appraise, 5i32),
        (LocaleTag::Archeology, 1i32),
        (LocaleTag::Charm, 15i32),
        (LocaleTag::Climb, 20i32),
        (LocaleTag::Disguise, 5i32),
        (LocaleTag::Dodge, 0i32),
        (LocaleTag::DriveAuto, 20i32),
        (LocaleTag::ElectricalRepair, 10i32),
        (LocaleTag::Electronics, 1i32),
        (LocaleTag::FastTalk, 5i32),
        (LocaleTag::FightingBrawl, 25i32),
        (LocaleTag::FirearmsHandgun, 20i32),
        (LocaleTag::FirearmsRifleShotgun, 25i32),
        (LocaleTag::FirstAid, 30i32),
        (LocaleTag::History, 5i32),
        (LocaleTag::Intimidate, 15i32),
        (LocaleTag::Jump, 20i32),
        (LocaleTag::LanguageOwn, 0i32),
        (LocaleTag::Law, 5i32),
        (LocaleTag::LibraryUse, 20i32),
        (LocaleTag::Listen, 20i32),
        (LocaleTag::Locksmith, 1i32),
        (LocaleTag::MechanicalRepair, 10i32),
        (LocaleTag::Medicine, 1i32),
        (LocaleTag::NaturalWorld, 10i32),
        (LocaleTag::Navigate, 10i32),
        (LocaleTag::Occult, 5i32),
        (LocaleTag::OperateHeavyMachinery, 1i32),
        (LocaleTag::Persuade, 10i32),
        (LocaleTag::Psychoanalysis, 1i32),
        (LocaleTag::Psychology, 10i32),
        (LocaleTag::Ride, 5i32),
        (LocaleTag::SleightOfHand, 10i32),
        (LocaleTag::SpotHidden, 25i32),
        (LocaleTag::Stealth, 20i32),
        (LocaleTag::Swim, 10i32),
        (LocaleTag::Throw, 10i32),
        (LocaleTag::Track, 10i32),
    ]
}

/// The skills of every sheet that improve with use, with their base values; language (own) and dodge take theirs from education and dexterity.
pub fn default_skill_table() -> (r: Vec<(LocaleTag, i32)>)
    ensures
        r@ == spec_default_skill_table(),
{
    let r = vec![
        (LocaleTag::Accounting, 5i32),
        (LocaleTag::Anthropology, 1i32),
        (LocaleTag::Appraise, 5i32),
        (LocaleTag::Archeology, 1i32),
        (LocaleTag::Charm, 15i32),
        (LocaleTag::Climb, 20i32),
        (LocaleTag::Disguise, 5i32),
        (LocaleTag::Dodge, 0i32),
        (LocaleTag::DriveAuto, 20i32),
        (LocaleTag::ElectricalRepair, 10i32),
        (LocaleTag::Electronics, 1i32),
        (LocaleTag::FastTalk, 5i32),
        (LocaleTag::FightingBrawl, 25i32),
        (LocaleTag::FirearmsHandgun, 20i32),
        (LocaleTag::FirearmsRifleShotgun, 25i32),
        (LocaleTag::FirstAid, 30i32),
        (LocaleTag::History, 5i32),
        (LocaleTag::Intimidate, 15i32),
        (LocaleTag::Jump, 20i32),
        (LocaleTag::LanguageOwn, 0i32),
        (LocaleTag::Law, 5i32),
        (LocaleTag::LibraryUse, 20i32),
        (LocaleTag::Listen, 20i32),
        (LocaleTag::Locksmith, 1i32),
        (LocaleTag::MechanicalRepair, 10i32),
        (LocaleTag::Medicine, 1i32),
        (LocaleTag::NaturalWorld, 10i32),
        (LocaleTag::Navigate, 10i32),
        (LocaleTag::Occult, 5i32),
        (LocaleTag::OperateHeavyMachinery, 1i32),
        (LocaleTag::Persuade, 10i32),
        (LocaleTag::Psychoanalysis, 1i32),
        (LocaleTag::Psychology, 10i32),
        (LocaleTag::Ride, 5i32),
        (LocaleTag::SleightOfHand, 10i32),
        (LocaleTag::SpotHidden, 25i32),
        (LocaleTag::Stealth, 20i32),
        (LocaleTag::Swim, 10i32),
        (LocaleTag::Throw, 10i32),
        (LocaleTag::Track, 10i32),
    ];
    assert(r@ =~= spec_default_skill_table());
    r
}

/// Skills that a sheet may add, with their base values.
pub open spec fn spec_additional_skill_table() -> Seq<(LocaleTag, i32)> {
    seq![
        (LocaleTag::AnimalHandling, 1i32),
        (LocaleTag::Artillery, 1i32),
        (LocaleTag::ComputerUse, 1i32),
        (LocaleTag::Demolitions, 1i32),
        (LocaleTag::Diving, 1i32),
        (LocaleTag::Hypnosis, 1i32),
        (LocaleTag::ReadLips, 1i32),
    ]
}

/// Skills that a sheet may add, with their base values.
pub fn additional_skill_table() -> (r: Vec<(LocaleTag, i32)>)
    ensures
        r@ == spec_additional_skill_table(),
{
    let r = vec![
        (LocaleTag::AnimalHandling, 1i32),
        (LocaleTag::Artillery, 1i32),
        (LocaleTag::ComputerUse, 1i32),
        (LocaleTag::Demolitions, 1i32),
        (LocaleTag::Diving, 1i32),
        (LocaleTag::Hypnosis, 1i32),
        (LocaleTag::ReadLips, 1i32),
    ];
    assert(r@ =~= spec_additional_skill_table());
    r
}

/// Skills that a sheet adds with a specialisation, with their base values.
pub open spec fn spec_specialized_skill_table() -> Seq<(LocaleTag, i32)> {
    seq![
        (LocaleTag::ArtCraft, 5i32),
        (LocaleTag::Fighting, 10i32),
        (LocaleTag::Firearms, 10i32),
        (LocaleTag::LanguageOther, 1i32),
        (LocaleTag::Lore, 1i32),
        (LocaleTag::Pilot, 1i32),
        (LocaleTag::Science, 1i32),
        (LocaleTag::Survival, 10i32),
    ]
}

/// Skills that a sheet adds with a specialisation, with their base values.
pub fn specialized_skill_table() -> (r: Vec<(LocaleTag, i32)>)
    ensures
        r@ == spec_specialized_skill_table(),
{
    let r = vec![
        (LocaleTag::ArtCraft, 5i32),
        (LocaleTag::Fighting, 10i32),
        (LocaleTag::Firearms, 10i32),
        (LocaleTag::LanguageOther, 1i32),
        (LocaleTag::Lore, 1i32),
        (LocaleTag::Pilot, 1i32),
        (LocaleTag::Science, 1i32),
        (LocaleTag::Survival, 10i32),
    ];
    assert(r@ =~= spec_specialized_skill_table());
    r
}

/// The skills of every sheet that do not improve with use.
pub open spec fn spec_default_unimprovable_skill_table() -> Seq<(LocaleTag, i32)> {
    seq![
        (LocaleTag::CreditRating, 0i32),
        (LocaleTag::CthulhuMythos, 0i32),
    ]
}

/// The skills of every sheet that do not improve with use.
pub fn default_unimprovable_skill_table() -> (r: Vec<(LocaleTag, i32)>)
    ensures
        r@ == spec_default_unimprovable_skill_table(),
{
    let r = vec![
        (LocaleTag::CreditRating, 0i32),
        (LocaleTag::CthulhuMythos, 0i32),
    ];
    assert(r@ =~= spec_default_unimprovable_skill_table());
    r
}

/// The skills of every sheet whose value never changes: the base values of the specialisations.
pub open spec fn spec_default_constant_skill_table() -> Seq<(LocaleTag, i32)> {
    seq![
        (LocaleTag::ArtCraftAny, 5i32),
        (LocaleTag::LanguageAnyOther, 1i32),
        (LocaleTag::PilotAny, 1i32),
        (LocaleTag::ScienceAny, 1i32),
        (LocaleTag::SurvivalAny, 10i32),
    ]
}

/// The skills of every sheet whose value never changes: the base values of the specialisations.
pub fn default_constant_skill_table() -> (r: Vec<(LocaleTag, i32)>)
    ensures
        r@ == spec_default_constant_skill_table(),
{
    let r = vec![
        (LocaleTag::ArtCraftAny, 5i32),
        (LocaleTag::LanguageAnyOther, 1i32),
        (LocaleTag::PilotAny, 1i32),
        (LocaleTag::ScienceAny, 1i32),
        (LocaleTag::SurvivalAny, 10i32),
    ];
    assert(r@ =~= spec_default_constant_skill_table());
    r
}

} // verus!
