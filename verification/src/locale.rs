//! Languages, translated texts and the tags that name them.
use vstd::prelude::*;
use crate::utils::{lemma_first_index, lemma_first_index_full, lemma_first_index_step, spec_first_index};
use crate::text::{contains_ignore_case, eq_ignore_case, spec_contains_ignore_case, spec_eq_ignore_case};

verus! {

/// A language that texts are given in.
#[derive(Clone, Copy, Debug, PartialEq, Eq, Structural)]
pub enum LocaleLang {
    English,
    Polski,
}

impl Default for LocaleLang {
    fn default() -> (r: Self)
        ensures
            r == LocaleLang::English,
    {
        LocaleLang::English
    }
}

/// The language that a user's setting names: `pl`, `pol` or `polski`
/// (any case, spaces ignored) is Polish, anything else English.
pub open spec fn spec_lang_from_name(name: Seq<char>) -> LocaleLang {
    let squeezed = spec_remove_spaces(name);
    if spec_eq_ignore_case(squeezed, "pl"@) || spec_eq_ignore_case(squeezed, "pol"@)
        || spec_eq_ignore_case(squeezed, "polski"@) {
        LocaleLang::Polski
    } else {
        LocaleLang::English
    }
}

/// The characters of `s` that are not spaces.
pub open spec fn spec_remove_spaces(s: Seq<char>) -> Seq<char>
    decreases s.len(),
{
    if s.len() == 0 {
        s
    } else if s.last() == ' ' {
        spec_remove_spaces(s.drop_last())
    } else {
        spec_remove_spaces(s.drop_last()).push(s.last())
    }
}

/// Removing spaces never makes a text longer.
pub proof fn lemma_remove_spaces_len(s: Seq<char>)
    ensures
        spec_remove_spaces(s).len() <= s.len(),
    decreases s.len(),
{
    if s.len() > 0 {
        lemma_remove_spaces_len(s.drop_last());
    }
}

/// Removes the spaces of `s`.
pub fn remove_spaces(s: &str) -> (r: String)
    ensures
        r@ == spec_remove_spaces(s@),
{
    let n = s.unicode_len();
    let mut out = String::new();
    let mut i: usize = 0;
    proof { reveal_strlit(" "); }
    while i < n
        invariant
            n == s@.len(),
            i <= n,
            out@ == spec_remove_spaces(s@.subrange(0, i as int)),
        decreases n - i,
    {
        let c = s.get_char(i);
        let piece = s.substring_char(i, i + 1);
        assert(piece@ =~= seq![c]);
        if c != ' ' {
            out.append(piece);
        }
        assert(s@.subrange(0, i as int + 1).drop_last() =~= s@.subrange(0, i as int));
        i += 1;
    }
    assert(s@.subrange(0, n as int) =~= s@);
    out
}

impl LocaleLang {
    /// The language that a user's setting names.
    pub fn from_name(name: &str) -> (r: LocaleLang)
        ensures
            r == spec_lang_from_name(name@),
    {
        let squeezed = remove_spaces(name);
        if eq_ignore_case(squeezed.as_str(), "pl") || eq_ignore_case(squeezed.as_str(), "pol")
            || eq_ignore_case(squeezed.as_str(), "polski") {
            LocaleLang::Polski
        } else {
            LocaleLang::English
        }
    }

    /// The name of the language as it is shown to users.
    pub fn name(&self) -> (r: String)
        ensures
            r@ == (match *self {
                LocaleLang::Polski => "polski"@,
                LocaleLang::English => "english"@,
            }),
    {
        match self {
            LocaleLang::Polski => String::from_str("polski"),
            LocaleLang::English => String::from_str("english"),
        }
    }
}

/// A text in English and in Polish.
#[derive(Debug)]
pub struct LocaleEntry {
    pub pl: String,
    pub en: String,
}

impl View for LocaleEntry {
    type V = (Seq<char>, Seq<char>);

    /// The English text, then the Polish one.
    open spec fn view(&self) -> (Seq<char>, Seq<char>) {
        (self.en@, self.pl@)
    }
}

impl Clone for LocaleEntry {
    fn clone(&self) -> (r: Self)
        ensures
            r@ == self@,
    {
        LocaleEntry { pl: self.pl.clone(), en: self.en.clone() }
    }
}

impl Default for LocaleEntry {
    /// No text in either language.
    fn default() -> (r: Self)
        ensures
            r@ == (Seq::<char>::empty(), Seq::<char>::empty()),
    {
        LocaleEntry { pl: String::new(), en: String::new() }
    }
}

/// The text of an entry in a language.
pub open spec fn spec_text(e: (Seq<char>, Seq<char>), lang: LocaleLang) -> Seq<char> {
    match lang {
        LocaleLang::Polski => e.1,
        LocaleLang::English => e.0,
    }
}

/// Either text of the entry equals `text`, up to ASCII case.
pub open spec fn spec_entry_equals(e: (Seq<char>, Seq<char>), text: Seq<char>) -> bool {
    spec_eq_ignore_case(e.1, text) || spec_eq_ignore_case(e.0, text)
}

impl LocaleEntry {
    pub fn new(en: &str, pl: &str) -> (r: Self)
        ensures
            r@ == (en@, pl@),
    {
        LocaleEntry { pl: String::from_str(pl), en: String::from_str(en) }
    }

    /// An entry whose text is the same in both languages.
    pub fn new_single_lang(text: &str) -> (r: Self)
        ensures
            r@ == (text@, text@),
    {
        LocaleEntry { pl: String::from_str(text), en: String::from_str(text) }
    }

    pub fn get(&self, lang: LocaleLang) -> (r: String)
        ensures
            r@ == spec_text(self@, lang),
    {
        match lang {
            LocaleLang::Polski => self.pl.clone(),
            LocaleLang::English => self.en.clone(),
        }
    }

    /// Either text contains `text`, ignoring ASCII case.
    pub fn partial_match_ignore_case(&self, text: &str) -> (r: bool)
        ensures
            r == (spec_contains_ignore_case(self.pl@, text@) || spec_contains_ignore_case(self.en@, text@)),
    {
        contains_ignore_case(self.pl.as_str(), text) || contains_ignore_case(self.en.as_str(), text)
    }

    /// Either text equals `text`, ignoring ASCII case.
    pub fn equals_ignore_case(&self, text: &str) -> (r: bool)
        ensures
            r == spec_entry_equals(self@, text@),
    {
        eq_ignore_case(self.pl.as_str(), text) || eq_ignore_case(self.en.as_str(), text)
    }

    /// The tag whose table entry is this entry.
    #[verifier::rlimit(40)]
    pub fn to_enum(&self) -> (r: Option<LocaleTag>)
        ensures
            r matches Some(t) ==> spec_locale_tags().contains(t) && spec_locale_entry(t) == Some(self@),
            r is None ==> forall|i: int| 0 <= i < spec_locale_tags().len()
                ==> spec_locale_entry(#[trigger] spec_locale_tags()[i]) != Some(self@),
    {
        let mut i: usize = 0;
        while i < LOCALE_TABLE_LEN
            invariant
                i <= LOCALE_TABLE_LEN,
                forall|j: int| 0 <= j < i ==> spec_locale_entry(#[trigger] spec_locale_tags()[j]) != Some(self@),
            decreases LOCALE_TABLE_LEN - i,
        {
            let tag = locale_tag_at(i);
            if let Some(e) = locale_entry_opt(tag) {
                if string_eq(&e.en, &self.en) && string_eq(&e.pl, &self.pl) {
                    assert(spec_locale_tags()[i as int] == tag);
                    return Some(tag);
                }
            }
            i += 1;
        }
        None
    }
}

fn string_eq(a: &String, b: &String) -> (r: bool)
    ensures
        r == (a@ == b@),
{
    *a == *b
}

/// A text tag.
#[derive(Clone, Copy, Debug, PartialEq, Eq, Hash, Structural)]
pub enum LocaleTag {
    Accounting,
    Adventurer,
    Agony,
    Alert,
    Ammo,
    AnimalCompanion,
    AnimalHandling,
    Anthropology,
    App,
    Appearance,
    Appraise,
    ArcaneInsight,
    Archeology,
    ArtCraft,
    ArtCraftAny,
    Artillery,
    Attacks,
    BeadyEye,
    Beefcake,
    BodyHealed,
    BodyWounded,
    Bonus,
    BonusDieToFirstAction,
    BonVivant,
    Build,
    CantRemoveDefaultWeapon,
    CantSpendLuck,
    Characteristic,
    CharacterNotFound,
    Charm,
    Climb,
    ColdBlooded,
    ComesBackWithFullStrength,
    ComputerUse,
    Con,
    Constitution,
    CoreCharacteristic,
    CreditRating,
    CriticalFailure,
    CriticalSuccess,
    CthulhuMythos,
    Damage,
    DamageBonus,
    Db,
    DeathInevitable,
    Demolitions,
    Dex,
    Dexterity,
    Dice,
    Disguise,
    Diving,
    Dodge,
    Dreamer,
    DriveAuto,
    Edu,
    Education,
    Egghead,
    ElectricalRepair,
    Electronics,
    Endurance,
    Explorer,
    ExtremeDamage,
    ExtremeSuccess,
    Failure,
    FastLoad,
    FastTalk,
    FemmeFatale,
    Fight,
    FightEnd,
    Fighting,
    FightingBrawl,
    Firearms,
    FirearmsHandgun,
    FirearmsRifleShotgun,
    FirstAid,
    FleetFooted,
    From,
    Gadget,
    GoneMad,
    GreaseMonkey,
    Handy,
    HardBoiled,
    Hardened,
    HardSuccess,
    Harlequin,
    HeavyHitter,
    History,
    HitPoints,
    Hp,
    Hunter,
    Hypnosis,
    Impaling,
    InClip,
    IndefInsanity,
    Int,
    Intelligence,
    Intimidate,
    IronLiver,
    Item,
    Items,
    Jump,
    KeenHearing,
    KeenVision,
    KnockOut,
    LanguageAnyOther,
    LanguageOther,
    LanguageOwn,
    Law,
    LibraryUse,
    Linguist,
    Listen,
    Locksmith,
    Lore,
    LosesFirstRound,
    Luck,
    Lucky,
    MagicPoints,
    MajorWound,
    MajorWoundHealed,
    Malfunction,
    ManeuverBuildError,
    MasterOfDisguise,
    MaxSanitySet,
    MechanicalRepair,
    Medicine,
    MindHealed,
    MindShattered,
    Move,
    Mp,
    Mystic,
    MythosKnowledge,
    Name,
    NaturalWorld,
    Navigate,
    NightVision,
    Nimble,
    NoCharacters,
    NoCharacterSelected,
    NoItems,
    NoSuchItem,
    NoSuchSkill,
    NoSuchWeapon,
    NotMarked,
    Occult,
    OperateHeavyMachinery,
    Outmaneuver,
    Outsider,
    Pcs,
    Penalty,
    Persuade,
    PhotographicMemory,
    Pilot,
    PilotAny,
    PointsTowards,
    Pow,
    Power,
    PowerLifter,
    PrepareForTheConsequences,
    PsychicPower,
    Psychoanalysis,
    Psychology,
    PulpArchetype,
    PulpTalents,
    PushRoll,
    QuickDraw,
    QuickHealer,
    QuickStudy,
    Range,
    RapidAttack,
    RapidFire,
    ReadLips,
    Received,
    Reloaded,
    Resilient,
    Resourceful,
    Result,
    Results,
    Ride,
    Rogue,
    RollConCheckBlackOut,
    RollConCheckDie,
    RollIntCheck,
    Rolls,
    Rounds,
    Sanity,
    Scary,
    Scholar,
    Science,
    ScienceAny,
    Seeker,
    SetLanguageTo,
    Shadow,
    SharpWitted,
    Sidekick,
    Siz,
    Size,
    Skill,
    SkillMarked,
    SkillUnmarked,
    SleightOfHand,
    SmoothTalker,
    SorryTooManyCharacters,
    Sp,
    SpotHidden,
    Steadfast,
    Stealth,
    StoutConstitution,
    Str,
    Strength,
    StrongWilled,
    Success,
    Survival,
    SurvivalAny,
    Swashbuckler,
    Swim,
    TempInsanity,
    TempInsanityThreat,
    ThrillSeeker,
    Throw,
    ToughGuy,
    Track,
    TwoFisted,
    Unarmed,
    Value,
    Weapon,
    WeaponJammed,
    Weapons,
    WeirdScience,
    YouBlackOut,
    YouFell,
    YouGotLuckyThisTIme,
}

/// A tag paired with its texts.
pub fn locale_entry(tag: LocaleTag, en: &str, pl: &str) -> (r: (LocaleTag, LocaleEntry))
    ensures
        r.0 == tag,
        r.1@ == (en@, pl@),
{
    (tag, LocaleEntry::new(en, pl))
}

/// Every tag that has an entry in the text table, in table order.
/// Number of tags in the text table.
pub const LOCALE_TABLE_LEN: usize = 230;

/// The tag at a position of the text table.
pub open spec fn spec_locale_tag_at(i: usize) -> LocaleTag {
    match i {
        0 => LocaleTag::Agony,
        1 => LocaleTag::Ammo,
        2 => LocaleTag::Attacks,
        3 => LocaleTag::BodyHealed,
        4 => LocaleTag::BodyWounded,
        5 => LocaleTag::Bonus,
        6 => LocaleTag::BonusDieToFirstAction,
        7 => LocaleTag::CantRemoveDefaultWeapon,
        8 => LocaleTag::CantSpendLuck,
        9 => LocaleTag::Characteristic,
        10 => LocaleTag::CharacterNotFound,
        11 => LocaleTag::ComesBackWithFullStrength,
        12 => LocaleTag::CoreCharacteristic,
        13 => LocaleTag::CriticalFailure,
        14 => LocaleTag::CriticalSuccess,
        15 => LocaleTag::Damage,
        16 => LocaleTag::DeathInevitable,
        17 => LocaleTag::Dice,
        18 => LocaleTag::ExtremeDamage,
        19 => LocaleTag::ExtremeSuccess,
        20 => LocaleTag::Failure,
        21 => LocaleTag::Fight,
        22 => LocaleTag::FightEnd,
        23 => LocaleTag::From,
        24 => LocaleTag::GoneMad,
        25 => LocaleTag::HardSuccess,
        26 => LocaleTag::Impaling,
        27 => LocaleTag::InClip,
        28 => LocaleTag::IndefInsanity,
        29 => LocaleTag::Item,
        30 => LocaleTag::Items,
        31 => LocaleTag::KnockOut,
        32 => LocaleTag::LosesFirstRound,
        33 => LocaleTag::MajorWound,
        34 => LocaleTag::MajorWoundHealed,
        35 => LocaleTag::Malfunction,
        36 => LocaleTag::ManeuverBuildError,
        37 => LocaleTag::MaxSanitySet,
        38 => LocaleTag::MindHealed,
        39 => LocaleTag::MindShattered,
        40 => LocaleTag::Name,
        41 => LocaleTag::NoCharacters,
        42 => LocaleTag::NoCharacterSelected,
        43 => LocaleTag::NoItems,
        44 => LocaleTag::NoSuchItem,
        45 => LocaleTag::NoSuchWeapon,
        46 => LocaleTag::NotMarked,
        47 => LocaleTag::Pcs,
        48 => LocaleTag::Penalty,
        49 => LocaleTag::PointsTowards,
        50 => LocaleTag::PrepareForTheConsequences,
        51 => LocaleTag::PulpArchetype,
        52 => LocaleTag::PulpTalents,
        53 => LocaleTag::PushRoll,
        54 => LocaleTag::Range,
        55 => LocaleTag::Received,
        56 => LocaleTag::Reloaded,
        57 => LocaleTag::Result,
        58 => LocaleTag::Results,
        59 => LocaleTag::RollConCheckBlackOut,
        60 => LocaleTag::RollConCheckDie,
        61 => LocaleTag::RollIntCheck,
        62 => LocaleTag::Rolls,
        63 => LocaleTag::Rounds,
        64 => LocaleTag::SetLanguageTo,
        65 => LocaleTag::SkillMarked,
        66 => LocaleTag::SkillUnmarked,
        67 => LocaleTag::SorryTooManyCharacters,
        68 => LocaleTag::Success,
        69 => LocaleTag::TempInsanity,
        70 => LocaleTag::TempInsanityThreat,
        71 => LocaleTag::Unarmed,
        72 => LocaleTag::Value,
        73 => LocaleTag::Weapon,
        74 => LocaleTag::WeaponJammed,
        75 => LocaleTag::Weapons,
        76 => LocaleTag::YouBlackOut,
        77 => LocaleTag::YouFell,
        78 => LocaleTag::YouGotLuckyThisTIme,
        79 => LocaleTag::App,
        80 => LocaleTag::Con,
        81 => LocaleTag::Dex,
        82 => LocaleTag::Edu,
        83 => LocaleTag::Int,
        84 => LocaleTag::Pow,
        85 => LocaleTag::Siz,
        86 => LocaleTag::Str,
        87 => LocaleTag::Appearance,
        88 => LocaleTag::Constitution,
        89 => LocaleTag::Dexterity,
        90 => LocaleTag::Education,
        91 => LocaleTag::Intelligence,
        92 => LocaleTag::Power,
        93 => LocaleTag::Size,
        94 => LocaleTag::Strength,
        95 => LocaleTag::Build,
        96 => LocaleTag::DamageBonus,
        97 => LocaleTag::Db,
        98 => LocaleTag::HitPoints,
        99 => LocaleTag::Hp,
        100 => LocaleTag::Luck,
        101 => LocaleTag::MagicPoints,
        102 => LocaleTag::Move,
        103 => LocaleTag::Mp,
        104 => LocaleTag::Sanity,
        105 => LocaleTag::Skill,
        106 => LocaleTag::Sp,
        107 => LocaleTag::Adventurer,
        108 => LocaleTag::Beefcake,
        109 => LocaleTag::BonVivant,
        110 => LocaleTag::ColdBlooded,
        111 => LocaleTag::Dreamer,
        112 => LocaleTag::Egghead,
        113 => LocaleTag::Explorer,
        114 => LocaleTag::FemmeFatale,
        115 => LocaleTag::GreaseMonkey,
        116 => LocaleTag::HardBoiled,
        117 => LocaleTag::Harlequin,
        118 => LocaleTag::Hunter,
        119 => LocaleTag::Mystic,
        120 => LocaleTag::Outsider,
        121 => LocaleTag::Rogue,
        122 => LocaleTag::Scholar,
        123 => LocaleTag::Seeker,
        124 => LocaleTag::Sidekick,
        125 => LocaleTag::Steadfast,
        126 => LocaleTag::Swashbuckler,
        127 => LocaleTag::ThrillSeeker,
        128 => LocaleTag::TwoFisted,
        129 => LocaleTag::Alert,
        130 => LocaleTag::AnimalCompanion,
        131 => LocaleTag::ArcaneInsight,
        132 => LocaleTag::BeadyEye,
        133 => LocaleTag::Endurance,
        134 => LocaleTag::FastLoad,
        135 => LocaleTag::FleetFooted,
        136 => LocaleTag::Gadget,
        137 => LocaleTag::Handy,
        138 => LocaleTag::Hardened,
        139 => LocaleTag::HeavyHitter,
        140 => LocaleTag::IronLiver,
        141 => LocaleTag::KeenHearing,
        142 => LocaleTag::KeenVision,
        143 => LocaleTag::Linguist,
        144 => LocaleTag::Lore,
        145 => LocaleTag::Lucky,
        146 => LocaleTag::MasterOfDisguise,
        147 => LocaleTag::MythosKnowledge,
        148 => LocaleTag::NightVision,
        149 => LocaleTag::Nimble,
        150 => LocaleTag::Outmaneuver,
        151 => LocaleTag::PhotographicMemory,
        152 => LocaleTag::PowerLifter,
        153 => LocaleTag::PsychicPower,
        154 => LocaleTag::QuickDraw,
        155 => LocaleTag::QuickHealer,
        156 => LocaleTag::QuickStudy,
        157 => LocaleTag::RapidAttack,
        158 => LocaleTag::RapidFire,
        159 => LocaleTag::Resilient,
        160 => LocaleTag::Resourceful,
        161 => LocaleTag::Scary,
        162 => LocaleTag::Shadow,
        163 => LocaleTag::SharpWitted,
        164 => LocaleTag::SmoothTalker,
        165 => LocaleTag::StoutConstitution,
        166 => LocaleTag::StrongWilled,
        167 => LocaleTag::ToughGuy,
        168 => LocaleTag::WeirdScience,
        169 => LocaleTag::Accounting,
        170 => LocaleTag::AnimalHandling,
        171 => LocaleTag::Anthropology,
        172 => LocaleTag::Appraise,
        173 => LocaleTag::Archeology,
        174 => LocaleTag::ArtCraft,
        175 => LocaleTag::ArtCraftAny,
        176 => LocaleTag::Artillery,
        177 => LocaleTag::Charm,
        178 => LocaleTag::Climb,
        179 => LocaleTag::ComputerUse,
        180 => LocaleTag::CreditRating,
        181 => LocaleTag::CthulhuMythos,
        182 => LocaleTag::Demolitions,
        183 => LocaleTag::Disguise,
        184 => LocaleTag::Diving,
        185 => LocaleTag::Dodge,
        186 => LocaleTag::DriveAuto,
        187 => LocaleTag::ElectricalRepair,
        188 => LocaleTag::Electronics,
        189 => LocaleTag::FastTalk,
        190 => LocaleTag::Fighting,
        191 => LocaleTag::FightingBrawl,
        192 => LocaleTag::Firearms,
        193 => LocaleTag::FirearmsHandgun,
        194 => LocaleTag::FirearmsRifleShotgun,
        195 => LocaleTag::FirstAid,
        196 => LocaleTag::History,
        197 => LocaleTag::Hypnosis,
        198 => LocaleTag::Intimidate,
        199 => LocaleTag::Jump,
        200 => LocaleTag::LanguageAnyOther,
        201 => LocaleTag::LanguageOther,
        202 => LocaleTag::LanguageOwn,
        203 => LocaleTag::Law,
        204 => LocaleTag::LibraryUse,
        205 => LocaleTag::Listen,
        206 => LocaleTag::Locksmith,
        207 => LocaleTag::MechanicalRepair,
        208 => LocaleTag::Medicine,
        209 => LocaleTag::NaturalWorld,
        210 => LocaleTag::Navigate,
        211 => LocaleTag::Occult,
        212 => LocaleTag::OperateHeavyMachinery,
        213 => LocaleTag::Persuade,
        214 => LocaleTag::Pilot,
        215 => LocaleTag::PilotAny,
        216 => LocaleTag::Psychoanalysis,
        217 => LocaleTag::Psychology,
        218 => LocaleTag::ReadLips,
        219 => LocaleTag::Ride,
        220 => LocaleTag::Science,
        221 => LocaleTag::ScienceAny,
        222 => LocaleTag::SleightOfHand,
        223 => LocaleTag::SpotHidden,
        224 => LocaleTag::Stealth,
        225 => LocaleTag::Survival,
        226 => LocaleTag::SurvivalAny,
        227 => LocaleTag::Swim,
        228 => LocaleTag::Throw,
        _ => LocaleTag::Track,
    }
}

/// Every tag that has an entry in the text table, in table order.
pub open spec fn spec_locale_tags() -> Seq<LocaleTag> {
    Seq::new(LOCALE_TABLE_LEN as nat, |i: int| spec_locale_tag_at(i as usize))
}

/// The English and Polish texts of a tag, where the table has them.
pub open spec fn spec_locale_entry(tag: LocaleTag) -> Option<(Seq<char>, Seq<char>)> {
    match tag {
        LocaleTag::Accounting => Some(("Accounting"@, "Księgowość"@)),
        LocaleTag::Adventurer => Some(("Adventurer"@, "Awanturnik"@)),
        LocaleTag::Agony => Some(("Agony!"@, "Agonia!"@)),
        LocaleTag::Alert => Some(("Alert"@, "Czujność"@)),
        LocaleTag::Ammo => Some(("Ammo"@, "Amunicja"@)),
        LocaleTag::AnimalCompanion => Some(("Animal Companion"@, "Zwierzęcy Towarzysz"@)),
        LocaleTag::AnimalHandling => Some(("Animal Handling"@, "Tresura Zwierząt"@)),
        LocaleTag::Anthropology => Some(("Anthropology"@, "Antropologia"@)),
        LocaleTag::App => Some(("APP"@, "WYG"@)),
        LocaleTag::Appearance => Some(("Appearance"@, "Wygląd"@)),
        LocaleTag::Appraise => Some(("Appraise"@, "Wycena"@)),
        LocaleTag::ArcaneInsight => Some(("Arcane Insight"@, "Magiczna Intuicja"@)),
        LocaleTag::Archeology => Some(("Archeology"@, "Archeologia"@)),
        LocaleTag::ArtCraft => Some(("Art/Craft"@, "Sztuka/Rzemiosło"@)),
        LocaleTag::ArtCraftAny => Some(("Art/Craft (any)"@, "Sztuka/Rzemiosło (dowolne)"@)),
        LocaleTag::Artillery => Some(("Artillery"@, "Broń Artyleryjska"@)),
        LocaleTag::Attacks => Some(("Attacks"@, "Ataki"@)),
        LocaleTag::BeadyEye => Some(("Beady Eye"@, "Celne Oko"@)),
        LocaleTag::Beefcake => Some(("Beefcake"@, "Osiłek"@)),
        LocaleTag::BodyHealed => Some(("your body healed enough to carry on..."@, "twoje ciało wyzdrowiało wystarczająco, by ruszyć dalej..."@)),
        LocaleTag::BodyWounded => Some(("your body has been heavily wounded..."@, "twoje ciało zostało ciężko zranione..."@)),
        LocaleTag::Bonus => Some(("➕ Bonus"@, "➕ Premiowe"@)),
        LocaleTag::BonusDieToFirstAction => Some(("bonus die to first action"@, "kość premiowa do pierwszej akcji"@)),
        LocaleTag::BonVivant => Some(("Bon Vivant"@, "Bon Vivant"@)),
        LocaleTag::Build => Some(("Build"@, "Krzepa"@)),
        LocaleTag::CantRemoveDefaultWeapon => Some(("Can't remove default weapon."@, "Nie można usunąć domyślnej broni."@)),
        LocaleTag::CantSpendLuck => Some(("Not enough Luck points!"@, "Niewystarczająca ilość punktów Szczęścia!"@)),
        LocaleTag::Characteristic => Some(("Characteristic"@, "Cecha"@)),
        LocaleTag::CharacterNotFound => Some(("No such character"@, "Nie ma takiej postaci"@)),
        LocaleTag::Charm => Some(("Charm"@, "Urok Osobisty"@)),
        LocaleTag::Climb => Some(("Climb"@, "Wspinaczka"@)),
        LocaleTag::ColdBlooded => Some(("Cold Blooded"@, "Bezwzględny"@)),
        LocaleTag::ComesBackWithFullStrength => Some(("Comes back with full strength. 💪"@, "Powraca w pełni sił. 💪"@)),
        LocaleTag::ComputerUse => Some(("Computer Use"@, "Korzystanie z Komputerów"@)),
        LocaleTag::Con => Some(("CON"@, "KON"@)),
        LocaleTag::Constitution => Some(("Constitution"@, "Kondycja"@)),
        LocaleTag::CoreCharacteristic => Some(("Core Characteristic"@, "Cecha Podstawowa"@)),
        LocaleTag::CreditRating => Some(("Credit Rating"@, "Majętność"@)),
        LocaleTag::CriticalFailure => Some(("🐙🐙🐙 CRITICAL FAILURE 🐙🐙🐙"@, "🐙🐙🐙 KRYTYCZNA PORAŻKA 🐙🐙🐙"@)),
        LocaleTag::CriticalSuccess => Some(("✨✨✨ CRITICAL SUCCESS ✨✨✨"@, "✨✨✨ KRYTYCZNY SUKCES ✨✨✨"@)),
        LocaleTag::CthulhuMythos => Some(("Cthulhu Mythos"@, "Mity Cthulhu"@)),
        LocaleTag::Damage => Some(("Damage"@, "Obrażenia"@)),
        LocaleTag::DamageBonus => Some(("Damage Bonus"@, "Modyfikator Obrażeń"@)),
        LocaleTag::Db => Some(("DB"@, "MO"@)),
        LocaleTag::DeathInevitable => Some(("Death is inevitable."@, "Śmierć jest nieunikniona."@)),
        LocaleTag::Demolitions => Some(("Demolitions"@, "Materiały Wybuchowe"@)),
        LocaleTag::Dex => Some(("DEX"@, "ZR"@)),
        LocaleTag::Dexterity => Some(("Dexterity"@, "Zręczność"@)),
        LocaleTag::Dice => Some(("dice"@, "kości"@)),
        LocaleTag::Disguise => Some(("Disguise"@, "Charakteryzacja"@)),
        LocaleTag::Diving => Some(("Diving"@, "Nurkowanie"@)),
        LocaleTag::Dodge => Some(("Dodge"@, "Unik"@)),
        LocaleTag::Dreamer => Some(("Dreamer"@, "Marzyciel"@)),
        LocaleTag::DriveAuto => Some(("Drive Auto"@, "Prowadzenie Samochodu"@)),
        LocaleTag::Edu => Some(("EDU"@, "WYK"@)),
        LocaleTag::Education => Some(("Education"@, "Wykształcenie"@)),
        LocaleTag::Egghead => Some(("Egghead"@, "Mózgowiec"@)),
        LocaleTag::ElectricalRepair => Some(("Electrical Repair"@, "Elektryka"@)),
        LocaleTag::Electronics => Some(("Electronics"@, "Elektronika"@)),
        LocaleTag::Endurance => Some(("Endurance"@, "Żelazna Kondycja"@)),
        LocaleTag::Explorer => Some(("Explorer"@, "Odkrywca"@)),
        LocaleTag::ExtremeDamage => Some(("extreme damage"@, "ekstremalne obrażenia"@)),
        LocaleTag::ExtremeSuccess => Some(("⭐⭐⭐ Extreme Success"@, "⭐⭐⭐ Ekstremalny Sukces"@)),
        LocaleTag::Failure => Some(("❌ Failure"@, "❌ Porażka"@)),
        LocaleTag::FastLoad => Some(("Fast Load"@, "Szybkie Przeładowanie"@)),
        LocaleTag::FastTalk => Some(("Fast Talk"@, "Gadanina"@)),
        LocaleTag::FemmeFatale => Some(("Femme Fatale"@, "Femme Fatale"@)),
        LocaleTag::Fight => Some(("Fight"@, "Walka"@)),
        LocaleTag::FightEnd => Some(("The end of the fight! 🎉"@, "Koniec walki! 🎉"@)),
        LocaleTag::Fighting => Some(("Fighting"@, "Walka Wręcz"@)),
        LocaleTag::FightingBrawl => Some(("Fighting (Brawl)"@, "Walka Wręcz (Bijatyka)"@)),
        LocaleTag::Firearms => Some(("Firearms"@, "Broń Palna"@)),
        LocaleTag::FirearmsHandgun => Some(("Firearms (Handgun)"@, "Broń Palna (Krótka)"@)),
        LocaleTag::FirearmsRifleShotgun => Some(("Firearms (Rifle/Shotgun)"@, "Broń Palna (Karabin/Strzelba)"@)),
        LocaleTag::FirstAid => Some(("First Aid"@, "Pierwsza Pomoc"@)),
        LocaleTag::FleetFooted => Some(("Fleet Footed"@, "Szybkonogi"@)),
        LocaleTag::From => Some(("from"@, "od"@)),
        LocaleTag::Gadget => Some(("Gadget"@, "Gadżet"@)),
        LocaleTag::GoneMad => Some(("has gone mad!"@, "ma atak szaleństwa!"@)),
        LocaleTag::GreaseMonkey => Some(("Grease Monkey"@, "Złota Rączka"@)),
        LocaleTag::Handy => Some(("Handy"@, "Majsterkowicz"@)),
        LocaleTag::HardBoiled => Some(("Hard Boiled"@, "Twarda Sztuka"@)),
        LocaleTag::Hardened => Some(("Hardened"@, "Hart Ducha"@)),
        LocaleTag::HardSuccess => Some(("⭐⭐ Hard Success"@, "⭐⭐ Trudny Sukces"@)),
        LocaleTag::Harlequin => Some(("Harlequin"@, "Harlequin"@)),
        LocaleTag::HeavyHitter => Some(("Heavy Hitter"@, "Ciężka Ręka"@)),
        LocaleTag::History => Some(("History"@, "Historia"@)),
        LocaleTag::HitPoints => Some(("Hit Points"@, "Punkty Wytrzymałości"@)),
        LocaleTag::Hp => Some(("HP"@, "PW"@)),
        LocaleTag::Hunter => Some(("Hunter"@, "Łowca"@)),
        LocaleTag::Hypnosis => Some(("Hypnosis"@, "Hipnoza"@)),
        LocaleTag::Impaling => Some(("impaling"@, "ostra"@)),
        LocaleTag::InClip => Some(("in clip"@, "w magazynku"@)),
        LocaleTag::IndefInsanity => Some(("Indefinite insanity."@, "Czasowa niepoczytalność."@)),
        LocaleTag::Int => Some(("INT"@, "INT"@)),
        LocaleTag::Intelligence => Some(("Intelligence"@, "Inteligencja"@)),
        LocaleTag::Intimidate => Some(("Intimidate"@, "Zastraszanie"@)),
        LocaleTag::IronLiver => Some(("Iron Liver"@, "Mocna Głowa"@)),
        LocaleTag::Item => Some(("item"@, "przedmiot"@)),
        LocaleTag::Items => Some(("Items"@, "Przedmioty"@)),
        LocaleTag::Jump => Some(("Jump"@, "Skakanie"@)),
        LocaleTag::KeenHearing => Some(("Keen Hearing"@, "Czuły Słuch"@)),
        LocaleTag::KeenVision => Some(("Keen Vision"@, "Bystry Wzrok"@)),
        LocaleTag::KnockOut => Some(("Knock Out!"@, "Nokaut!"@)),
        LocaleTag::LanguageAnyOther => Some(("Language (any other)"@, "Język Obcy (dowolny)"@)),
        LocaleTag::LanguageOther => Some(("Language (other)"@, "Język Obcy"@)),
        LocaleTag::LanguageOwn => Some(("Language (own)"@, "Język Ojczysty"@)),
        LocaleTag::Law => Some(("Law"@, "Prawo"@)),
        LocaleTag::LibraryUse => Some(("Library Use"@, "Korzystanie z Bibliotek"@)),
        LocaleTag::Linguist => Some(("Linguist"@, "Lingwista"@)),
        LocaleTag::Listen => Some(("Listen"@, "Nasłuchiwanie"@)),
        LocaleTag::Locksmith => Some(("Locksmith"@, "Ślusarstwo"@)),
        LocaleTag::Lore => Some(("Lore"@, "Wiedza Tajemna"@)),
        LocaleTag::LosesFirstRound => Some(("loses first round"@, "traci pierwszą turę"@)),
        LocaleTag::Luck => Some(("Luck"@, "Szczęście"@)),
        LocaleTag::Lucky => Some(("Lucky"@, "Szczęściarz"@)),
        LocaleTag::MagicPoints => Some(("Magic Points"@, "Punkty Magii"@)),
        LocaleTag::MajorWound => Some(("Major wound!"@, "Ciężka rana!"@)),
        LocaleTag::MajorWoundHealed => Some(("Major wound healed!"@, "Ciężka rana wyleczona!"@)),
        LocaleTag::Malfunction => Some(("Malfunction"@, "Zawodność"@)),
        LocaleTag::ManeuverBuildError => Some(("Build difference is 3 or more! Maneuver is impossible."@, "Różnica Krzepy wynosi 3 lub więcej! Manewr niemożliwy."@)),
        LocaleTag::MasterOfDisguise => Some(("Master of Disguise"@, "Mistrz Kamuflażu"@)),
        LocaleTag::MaxSanitySet => Some(("Set max sanity to"@, "Ustawiono maksymalną Poczytalność na"@)),
        LocaleTag::MechanicalRepair => Some(("Mechanical Repair"@, "Mechanika"@)),
        LocaleTag::Medicine => Some(("Medicine"@, "Medycyna"@)),
        LocaleTag::MindHealed => Some(("your mind healed enough to carry on..."@, "twój umysł wyzdrowiał wystarczająco, by ruszyć dalej..."@)),
        LocaleTag::MindShattered => Some(("Your mind has been irreversibly shattered."@, "Twój umysł został nieodwracalnie strzaskany."@)),
        LocaleTag::Move => Some(("Move"@, "Ruch"@)),
        LocaleTag::Mp => Some(("MP"@, "PM"@)),
        LocaleTag::Mystic => Some(("Mystic"@, "Mistyk"@)),
        LocaleTag::MythosKnowledge => Some(("Mythos Knowledge"@, "Znajomość Mitów"@)),
        LocaleTag::Name => Some(("Name"@, "Nazwa"@)),
        LocaleTag::NaturalWorld => Some(("Natural World"@, "Wiedza o Naturze"@)),
        LocaleTag::Navigate => Some(("Navigate"@, "Nawigacja"@)),
        LocaleTag::NightVision => Some(("Night Vision"@, "Widzenie w Ciemności"@)),
        LocaleTag::Nimble => Some(("Nimble"@, "Niezwykła Zwinność"@)),
        LocaleTag::NoCharacters => Some(("You have no characters yet."@, "Nie masz jeszcze żadnej postaci."@)),
        LocaleTag::NoCharacterSelected => Some(("No character selected"@, "Nie wybrano żadnej postaci"@)),
        LocaleTag::NoItems => Some(("no items"@, "brak przedmiotów"@)),
        LocaleTag::NoSuchItem => Some(("has no such item"@, "nie ma takiego przedmiotu"@)),
        LocaleTag::NoSuchSkill => None,
        LocaleTag::NoSuchWeapon => Some(("has no such weapon"@, "nie ma takiej broni"@)),
        LocaleTag::NotMarked => Some(("is not marked to be improved"@, "nie jest oznaczone do rozwinięcia"@)),
        LocaleTag::Occult => Some(("Occult"@, "Okultyzm"@)),
        LocaleTag::OperateHeavyMachinery => Some(("Operate Heavy Machinery"@, "Obsługa Ciężkiego Sprzętu"@)),
        LocaleTag::Outmaneuver => Some(("Outmaneuver"@, "Pewna Postawa"@)),
        LocaleTag::Outsider => Some(("Outsider"@, "Autsajder"@)),
        LocaleTag::Pcs => Some(("pcs"@, "szt"@)),
        LocaleTag::Penalty => Some(("➖ Penalty"@, "➖ Karne"@)),
        LocaleTag::Persuade => Some(("Persuade"@, "Perswazja"@)),
        LocaleTag::PhotographicMemory => Some(("Photographic Memory"@, "Fotograficzna Pamięć"@)),
        LocaleTag::Pilot => Some(("Pilot"@, "Pilotowanie"@)),
        LocaleTag::PilotAny => Some(("Pilot (any)"@, "Pilotowanie (dowolne)"@)),
        LocaleTag::PointsTowards => Some(("pts to"@, "pkt do"@)),
        LocaleTag::Pow => Some(("POW"@, "MOC"@)),
        LocaleTag::Power => Some(("Power"@, "Moc"@)),
        LocaleTag::PowerLifter => Some(("Power Lifter"@, "Ciężarowiec"@)),
        LocaleTag::PrepareForTheConsequences => Some(("Prepare for the consequences..."@, "Przygotuj się na konsekwencje..."@)),
        LocaleTag::PsychicPower => Some(("Psychic Power"@, "Moc Parapsychiczna"@)),
        LocaleTag::Psychoanalysis => Some(("Psychoanalysis"@, "Psychoanaliza"@)),
        LocaleTag::Psychology => Some(("Psychology"@, "Psychologia"@)),
        LocaleTag::PulpArchetype => Some(("Pulp Archetype"@, "Pulpowy Archetyp"@)),
        LocaleTag::PulpTalents => Some(("Pulp Talents"@, "Pulpowe Talenty"@)),
        LocaleTag::PushRoll => Some(("🥊 Push"@, "🥊 Forsuj"@)),
        LocaleTag::QuickDraw => Some(("Quick Draw"@, "Szybkie Dobywanie"@)),
        LocaleTag::QuickHealer => Some(("Quick Healer"@, "Szybka Regeneracja"@)),
        LocaleTag::QuickStudy => Some(("Quick Study"@, "Pojętny Uczeń"@)),
        LocaleTag::Range => Some(("Range"@, "Zasięg"@)),
        LocaleTag::RapidAttack => Some(("Rapid Attack"@, "Szybki Atak"@)),
        LocaleTag::RapidFire => Some(("Rapid Fire"@, "Rewolwerowiec"@)),
        LocaleTag::ReadLips => Some(("Read Lips"@, "Czytanie z Ruchu Warg"@)),
        LocaleTag::Received => Some(("received"@, "otrzymano"@)),
        LocaleTag::Reloaded => Some(("Reloaded"@, "Przeładowano"@)),
        LocaleTag::Resilient => Some(("Resilient"@, "Nerwy ze Stali"@)),
        LocaleTag::Resourceful => Some(("Resourceful"@, "Zaradność"@)),
        LocaleTag::Result => Some(("Result"@, "Wynik"@)),
        LocaleTag::Results => Some(("Results"@, "Wyniki"@)),
        LocaleTag::Ride => Some(("Ride"@, "Jeździectwo"@)),
        LocaleTag::Rogue => Some(("Rogue"@, "Buntownik"@)),
        LocaleTag::RollConCheckBlackOut => Some(("Roll a **CON** test not to blackout."@, "Rzuć test **KON**, aby nie stracić przytomności."@)),
        LocaleTag::RollConCheckDie => Some(("Roll a **CON** test not to **die**.\nYou'll be rolling this every round until someone helps you..."@, "Rzuć test **KON**, aby nie **umrzeć**.\nBędziesz rzucał co rundę dopóki ktoś Ci nie pomoże..."@)),
        LocaleTag::RollIntCheck => Some(("Roll an **INT** check if you **really** understood what just happened..."@, "Rzuć test **INT**, aby sprawdzić czy **naprawdę** pojąłeś co się właśnie stało..."@)),
        LocaleTag::Rolls => Some(("🎲"@, "🎲"@)),
        LocaleTag::Rounds => Some(("rounds"@, "pocisków"@)),
        LocaleTag::Sanity => Some(("Sanity"@, "Poczytalność"@)),
        LocaleTag::Scary => Some(("Scary"@, "Zakapior"@)),
        LocaleTag::Scholar => Some(("Scholar"@, "Uczony"@)),
        LocaleTag::Science => Some(("Science"@, "Nauka"@)),
        LocaleTag::ScienceAny => Some(("Science (any)"@, "Nauka (dowolna)"@)),
        LocaleTag::Seeker => Some(("Seeker"@, "Poszukiwacz Prawdy"@)),
        LocaleTag::SetLanguageTo => Some(("Set language to"@, "Ustawiono język na"@)),
        LocaleTag::Shadow => Some(("Shadow"@, "Cień"@)),
        LocaleTag::SharpWitted => Some(("Sharp Witted"@, "Bystry Umysł"@)),
        LocaleTag::Sidekick => Some(("Sidekick"@, "Pomagier"@)),
        LocaleTag::Siz => Some(("SIZ"@, "BC"@)),
        LocaleTag::Size => Some(("Size"@, "Budowa Ciała"@)),
        LocaleTag::Skill => Some(("Skill"@, "Umiejętność"@)),
        LocaleTag::SkillMarked => Some(("Skill marked to improve."@, "Umiejętność oznaczona do rozwinięcia."@)),
        LocaleTag::SkillUnmarked => Some(("Skill unmarked from improve."@, "Umiejętność odznaczona z rozwinięcia."@)),
        LocaleTag::SleightOfHand => Some(("Sleight of Hand"@, "Zręczne Palce"@)),
        LocaleTag::SmoothTalker => Some(("Smooth Talker"@, "Bajerant"@)),
        LocaleTag::SorryTooManyCharacters => Some(("Sorry, you have too many characters already."@, "Wybacz, masz już za dużo postaci."@)),
        LocaleTag::Sp => Some(("SP"@, "PP"@)),
        LocaleTag::SpotHidden => Some(("Spot Hidden"@, "Spostrzegawczość"@)),
        LocaleTag::Steadfast => Some(("Steadfast"@, "Bojownik o Sprawę"@)),
        LocaleTag::Stealth => Some(("Stealth"@, "Ukrywanie"@)),
        LocaleTag::StoutConstitution => Some(("Stout Constitution"@, "Zahartowany"@)),
        LocaleTag::Str => Some(("STR"@, "S"@)),
        LocaleTag::Strength => Some(("Strength"@, "Siła"@)),
        LocaleTag::StrongWilled => Some(("Strong Willed"@, "Silna Wola"@)),
        LocaleTag::Success => Some(("⭐ Success"@, "⭐ Sukces"@)),
        LocaleTag::Survival => Some(("Survival"@, "Sztuka Przetrwania"@)),
        LocaleTag::SurvivalAny => Some(("Survival (any)"@, "Sztuka Przetrwania (dowolna)"@)),
        LocaleTag::Swashbuckler => Some(("Swashbuckler"@, "Zawadiaka"@)),
        LocaleTag::Swim => Some(("Swim"@, "Pływanie"@)),
        LocaleTag::TempInsanity => Some(("Temporal insanity!"@, "Atak szaleństwa!"@)),
        LocaleTag::TempInsanityThreat => Some(("Temporal insanity threat!"@, "Ryzyko ataku szaleństwa!"@)),
        LocaleTag::ThrillSeeker => Some(("Thrill Seeker"@, "Śmiałek"@)),
        LocaleTag::Throw => Some(("Throw"@, "Rzucanie"@)),
        LocaleTag::ToughGuy => Some(("Tough Guy"@, "Twardziel"@)),
        LocaleTag::Track => Some(("Track"@, "Tropienie"@)),
        LocaleTag::TwoFisted => Some(("Two-Fisted"@, "Zabijaka"@)),
        LocaleTag::Unarmed => Some(("Unarmed"@, "Nieuzbrojony"@)),
        LocaleTag::Value => Some(("Value"@, "Wartość"@)),
        LocaleTag::Weapon => Some(("weapon"@, "broń"@)),
        LocaleTag::WeaponJammed => Some(("Weapon has jammed!"@, "Broń się zacięła!"@)),
        LocaleTag::Weapons => Some(("Weapons"@, "Broń"@)),
        LocaleTag::WeirdScience => Some(("Weird Science"@, "Szalona Nauka"@)),
        LocaleTag::YouBlackOut => Some(("You black out"@, "Tracisz przytomność."@)),
        LocaleTag::YouFell => Some(("You fell."@, "Upadasz."@)),
        LocaleTag::YouGotLuckyThisTIme => Some(("You got lucky this time..."@, "Tym razem ci się poszczęściło..."@)),
    }
}

/// The table entry of a tag, if the table has one.
pub fn locale_entry_opt(tag: LocaleTag) -> (r: Option<LocaleEntry>)
    ensures
        r is Some <==> spec_locale_entry(tag) is Some,
        r matches Some(e) ==> spec_locale_entry(tag) == Some(e.view()),
{
    match tag {
        LocaleTag::Accounting => Some(LocaleEntry::new("Accounting", "Księgowość")),
        LocaleTag::Adventurer => Some(LocaleEntry::new("Adventurer", "Awanturnik")),
        LocaleTag::Agony => Some(LocaleEntry::new("Agony!", "Agonia!")),
        LocaleTag::Alert => Some(LocaleEntry::new("Alert", "Czujność")),
        LocaleTag::Ammo => Some(LocaleEntry::new("Ammo", "Amunicja")),
        LocaleTag::AnimalCompanion => Some(LocaleEntry::new("Animal Companion", "Zwierzęcy Towarzysz")),
        LocaleTag::AnimalHandling => Some(LocaleEntry::new("Animal Handling", "Tresura Zwierząt")),
        LocaleTag::Anthropology => Some(LocaleEntry::new("Anthropology", "Antropologia")),
        LocaleTag::App => Some(LocaleEntry::new("APP", "WYG")),
        LocaleTag::Appearance => Some(LocaleEntry::new("Appearance", "Wygląd")),
        LocaleTag::Appraise => Some(LocaleEntry::new("Appraise", "Wycena")),
        LocaleTag::ArcaneInsight => Some(LocaleEntry::new("Arcane Insight", "Magiczna Intuicja")),
        LocaleTag::Archeology => Some(LocaleEntry::new("Archeology", "Archeologia")),
        LocaleTag::ArtCraft => Some(LocaleEntry::new("Art/Craft", "Sztuka/Rzemiosło")),
        LocaleTag::ArtCraftAny => Some(LocaleEntry::new("Art/Craft (any)", "Sztuka/Rzemiosło (dowolne)")),
        LocaleTag::Artillery => Some(LocaleEntry::new("Artillery", "Broń Artyleryjska")),
        LocaleTag::Attacks => Some(LocaleEntry::new("Attacks", "Ataki")),
        LocaleTag::BeadyEye => Some(LocaleEntry::new("Beady Eye", "Celne Oko")),
        LocaleTag::Beefcake => Some(LocaleEntry::new("Beefcake", "Osiłek")),
        LocaleTag::BodyHealed => Some(LocaleEntry::new("your body healed enough to carry on...", "twoje ciało wyzdrowiało wystarczająco, by ruszyć dalej...")),
        LocaleTag::BodyWounded => Some(LocaleEntry::new("your body has been heavily wounded...", "twoje ciało zostało ciężko zranione...")),
        LocaleTag::Bonus => Some(LocaleEntry::new("➕ Bonus", "➕ Premiowe")),
        LocaleTag::BonusDieToFirstAction => Some(LocaleEntry::new("bonus die to first action", "kość premiowa do pierwszej akcji")),
        LocaleTag::BonVivant => Some(LocaleEntry::new("Bon Vivant", "Bon Vivant")),
        LocaleTag::Build => Some(LocaleEntry::new("Build", "Krzepa")),
        LocaleTag::CantRemoveDefaultWeapon => Some(LocaleEntry::new("Can't remove default weapon.", "Nie można usunąć domyślnej broni.")),
        LocaleTag::CantSpendLuck => Some(LocaleEntry::new("Not enough Luck points!", "Niewystarczająca ilość punktów Szczęścia!")),
        LocaleTag::Characteristic => Some(LocaleEntry::new("Characteristic", "Cecha")),
        LocaleTag::CharacterNotFound => Some(LocaleEntry::new("No such character", "Nie ma takiej postaci")),
        LocaleTag::Charm => Some(LocaleEntry::new("Charm", "Urok Osobisty")),
        LocaleTag::Climb => Some(LocaleEntry::new("Climb", "Wspinaczka")),
        LocaleTag::ColdBlooded => Some(LocaleEntry::new("Cold Blooded", "Bezwzględny")),
        LocaleTag::ComesBackWithFullStrength => Some(LocaleEntry::new("Comes back with full strength. 💪", "Powraca w pełni sił. 💪")),
        LocaleTag::ComputerUse => Some(LocaleEntry::new("Computer Use", "Korzystanie z Komputerów")),
        LocaleTag::Con => Some(LocaleEntry::new("CON", "KON")),
        LocaleTag::Constitution => Some(LocaleEntry::new("Constitution", "Kondycja")),
        LocaleTag::CoreCharacteristic => Some(LocaleEntry::new("Core Characteristic", "Cecha Podstawowa")),
        LocaleTag::CreditRating => Some(LocaleEntry::new("Credit Rating", "Majętność")),
        LocaleTag::CriticalFailure => Some(LocaleEntry::new("🐙🐙🐙 CRITICAL FAILURE 🐙🐙🐙", "🐙🐙🐙 KRYTYCZNA PORAŻKA 🐙🐙🐙")),
        LocaleTag::CriticalSuccess => Some(LocaleEntry::new("✨✨✨ CRITICAL SUCCESS ✨✨✨", "✨✨✨ KRYTYCZNY SUKCES ✨✨✨")),
        LocaleTag::CthulhuMythos => Some(LocaleEntry::new("Cthulhu Mythos", "Mity Cthulhu")),
        LocaleTag::Damage => Some(LocaleEntry::new("Damage", "Obrażenia")),
        LocaleTag::DamageBonus => Some(LocaleEntry::new("Damage Bonus", "Modyfikator Obrażeń")),
        LocaleTag::Db => Some(LocaleEntry::new("DB", "MO")),
        LocaleTag::DeathInevitable => Some(LocaleEntry::new("Death is inevitable.", "Śmierć jest nieunikniona.")),
        LocaleTag::Demolitions => Some(LocaleEntry::new("Demolitions", "Materiały Wybuchowe")),
        LocaleTag::Dex => Some(LocaleEntry::new("DEX", "ZR")),
        LocaleTag::Dexterity => Some(LocaleEntry::new("Dexterity", "Zręczność")),
        LocaleTag::Dice => Some(LocaleEntry::new("dice", "kości")),
        LocaleTag::Disguise => Some(LocaleEntry::new("Disguise", "Charakteryzacja")),
        LocaleTag::Diving => Some(LocaleEntry::new("Diving", "Nurkowanie")),
        LocaleTag::Dodge => Some(LocaleEntry::new("Dodge", "Unik")),
        LocaleTag::Dreamer => Some(LocaleEntry::new("Dreamer", "Marzyciel")),
        LocaleTag::DriveAuto => Some(LocaleEntry::new("Drive Auto", "Prowadzenie Samochodu")),
        LocaleTag::Edu => Some(LocaleEntry::new("EDU", "WYK")),
        LocaleTag::Education => Some(LocaleEntry::new("Education", "Wykształcenie")),
        LocaleTag::Egghead => Some(LocaleEntry::new("Egghead", "Mózgowiec")),
        LocaleTag::ElectricalRepair => Some(LocaleEntry::new("Electrical Repair", "Elektryka")),
        LocaleTag::Electronics => Some(LocaleEntry::new("Electronics", "Elektronika")),
        LocaleTag::Endurance => Some(LocaleEntry::new("Endurance", "Żelazna Kondycja")),
        LocaleTag::Explorer => Some(LocaleEntry::new("Explorer", "Odkrywca")),
        LocaleTag::ExtremeDamage => Some(LocaleEntry::new("extreme damage", "ekstremalne obrażenia")),
        LocaleTag::ExtremeSuccess => Some(LocaleEntry::new("⭐⭐⭐ Extreme Success", "⭐⭐⭐ Ekstremalny Sukces")),
        LocaleTag::Failure => Some(LocaleEntry::new("❌ Failure", "❌ Porażka")),
        LocaleTag::FastLoad => Some(LocaleEntry::new("Fast Load", "Szybkie Przeładowanie")),
        LocaleTag::FastTalk => Some(LocaleEntry::new("Fast Talk", "Gadanina")),
        LocaleTag::FemmeFatale => Some(LocaleEntry::new("Femme Fatale", "Femme Fatale")),
        LocaleTag::Fight => Some(LocaleEntry::new("Fight", "Walka")),
        LocaleTag::FightEnd => Some(LocaleEntry::new("The end of the fight! 🎉", "Koniec walki! 🎉")),
        LocaleTag::Fighting => Some(LocaleEntry::new("Fighting", "Walka Wręcz")),
        LocaleTag::FightingBrawl => Some(LocaleEntry::new("Fighting (Brawl)", "Walka Wręcz (Bijatyka)")),
        LocaleTag::Firearms => Some(LocaleEntry::new("Firearms", "Broń Palna")),
        LocaleTag::FirearmsHandgun => Some(LocaleEntry::new("Firearms (Handgun)", "Broń Palna (Krótka)")),
        LocaleTag::FirearmsRifleShotgun => Some(LocaleEntry::new("Firearms (Rifle/Shotgun)", "Broń Palna (Karabin/Strzelba)")),
        LocaleTag::FirstAid => Some(LocaleEntry::new("First Aid", "Pierwsza Pomoc")),
        LocaleTag::FleetFooted => Some(LocaleEntry::new("Fleet Footed", "Szybkonogi")),
        LocaleTag::From => Some(LocaleEntry::new("from", "od")),
        LocaleTag::Gadget => Some(LocaleEntry::new("Gadget", "Gadżet")),
        LocaleTag::GoneMad => Some(LocaleEntry::new("has gone mad!", "ma atak szaleństwa!")),
        LocaleTag::GreaseMonkey => Some(LocaleEntry::new("Grease Monkey", "Złota Rączka")),
        LocaleTag::Handy => Some(LocaleEntry::new("Handy", "Majsterkowicz")),
        LocaleTag::HardBoiled => Some(LocaleEntry::new("Hard Boiled", "Twarda Sztuka")),
        LocaleTag::Hardened => Some(LocaleEntry::new("Hardened", "Hart Ducha")),
        LocaleTag::HardSuccess => Some(LocaleEntry::new("⭐⭐ Hard Success", "⭐⭐ Trudny Sukces")),
        LocaleTag::Harlequin => Some(LocaleEntry::new("Harlequin", "Harlequin")),
        LocaleTag::HeavyHitter => Some(LocaleEntry::new("Heavy Hitter", "Ciężka Ręka")),
        LocaleTag::History => Some(LocaleEntry::new("History", "Historia")),
        LocaleTag::HitPoints => Some(LocaleEntry::new("Hit Points", "Punkty Wytrzymałości")),
        LocaleTag::Hp => Some(LocaleEntry::new("HP", "PW")),
        LocaleTag::Hunter => Some(LocaleEntry::new("Hunter", "Łowca")),
        LocaleTag::Hypnosis => Some(LocaleEntry::new("Hypnosis", "Hipnoza")),
        LocaleTag::Impaling => Some(LocaleEntry::new("impaling", "ostra")),
        LocaleTag::InClip => Some(LocaleEntry::new("in clip", "w magazynku")),
        LocaleTag::IndefInsanity => Some(LocaleEntry::new("Indefinite insanity.", "Czasowa niepoczytalność.")),
        LocaleTag::Int => Some(LocaleEntry::new("INT", "INT")),
        LocaleTag::Intelligence => Some(LocaleEntry::new("Intelligence", "Inteligencja")),
        LocaleTag::Intimidate => Some(LocaleEntry::new("Intimidate", "Zastraszanie")),
        LocaleTag::IronLiver => Some(LocaleEntry::new("Iron Liver", "Mocna Głowa")),
        LocaleTag::Item => Some(LocaleEntry::new("item", "przedmiot")),
        LocaleTag::Items => Some(LocaleEntry::new("Items", "Przedmioty")),
        LocaleTag::Jump => Some(LocaleEntry::new("Jump", "Skakanie")),
        LocaleTag::KeenHearing => Some(LocaleEntry::new("Keen Hearing", "Czuły Słuch")),
        LocaleTag::KeenVision => Some(LocaleEntry::new("Keen Vision", "Bystry Wzrok")),
        LocaleTag::KnockOut => Some(LocaleEntry::new("Knock Out!", "Nokaut!")),
        LocaleTag::LanguageAnyOther => Some(LocaleEntry::new("Language (any other)", "Język Obcy (dowolny)")),
        LocaleTag::LanguageOther => Some(LocaleEntry::new("Language (other)", "Język Obcy")),
        LocaleTag::LanguageOwn => Some(LocaleEntry::new("Language (own)", "Język Ojczysty")),
        LocaleTag::Law => Some(LocaleEntry::new("Law", "Prawo")),
        LocaleTag::LibraryUse => Some(LocaleEntry::new("Library Use", "Korzystanie z Bibliotek")),
        LocaleTag::Linguist => Some(LocaleEntry::new("Linguist", "Lingwista")),
        LocaleTag::Listen => Some(LocaleEntry::new("Listen", "Nasłuchiwanie")),
        LocaleTag::Locksmith => Some(LocaleEntry::new("Locksmith", "Ślusarstwo")),
        LocaleTag::Lore => Some(LocaleEntry::new("Lore", "Wiedza Tajemna")),
        LocaleTag::LosesFirstRound => Some(LocaleEntry::new("loses first round", "traci pierwszą turę")),
        LocaleTag::Luck => Some(LocaleEntry::new("Luck", "Szczęście")),
        LocaleTag::Lucky => Some(LocaleEntry::new("Lucky", "Szczęściarz")),
        LocaleTag::MagicPoints => Some(LocaleEntry::new("Magic Points", "Punkty Magii")),
        LocaleTag::MajorWound => Some(LocaleEntry::new("Major wound!", "Ciężka rana!")),
        LocaleTag::MajorWoundHealed => Some(LocaleEntry::new("Major wound healed!", "Ciężka rana wyleczona!")),
        LocaleTag::Malfunction => Some(LocaleEntry::new("Malfunction", "Zawodność")),
        LocaleTag::ManeuverBuildError => Some(LocaleEntry::new("Build difference is 3 or more! Maneuver is impossible.", "Różnica Krzepy wynosi 3 lub więcej! Manewr niemożliwy.")),
        LocaleTag::MasterOfDisguise => Some(LocaleEntry::new("Master of Disguise", "Mistrz Kamuflażu")),
        LocaleTag::MaxSanitySet => Some(LocaleEntry::new("Set max sanity to", "Ustawiono maksymalną Poczytalność na")),
        LocaleTag::MechanicalRepair => Some(LocaleEntry::new("Mechanical Repair", "Mechanika")),
        LocaleTag::Medicine => Some(LocaleEntry::new("Medicine", "Medycyna")),
        LocaleTag::MindHealed => Some(LocaleEntry::new("your mind healed enough to carry on...", "twój umysł wyzdrowiał wystarczająco, by ruszyć dalej...")),
        LocaleTag::MindShattered => Some(LocaleEntry::new("Your mind has been irreversibly shattered.", "Twój umysł został nieodwracalnie strzaskany.")),
        LocaleTag::Move => Some(LocaleEntry::new("Move", "Ruch")),
        LocaleTag::Mp => Some(LocaleEntry::new("MP", "PM")),
        LocaleTag::Mystic => Some(LocaleEntry::new("Mystic", "Mistyk")),
        LocaleTag::MythosKnowledge => Some(LocaleEntry::new("Mythos Knowledge", "Znajomość Mitów")),
        LocaleTag::Name => Some(LocaleEntry::new("Name", "Nazwa")),
        LocaleTag::NaturalWorld => Some(LocaleEntry::new("Natural World", "Wiedza o Naturze")),
        LocaleTag::Navigate => Some(LocaleEntry::new("Navigate", "Nawigacja")),
        LocaleTag::NightVision => Some(LocaleEntry::new("Night Vision", "Widzenie w Ciemności")),
        LocaleTag::Nimble => Some(LocaleEntry::new("Nimble", "Niezwykła Zwinność")),
        LocaleTag::NoCharacters => Some(LocaleEntry::new("You have no characters yet.", "Nie masz jeszcze żadnej postaci.")),
        LocaleTag::NoCharacterSelected => Some(LocaleEntry::new("No character selected", "Nie wybrano żadnej postaci")),
        LocaleTag::NoItems => Some(LocaleEntry::new("no items", "brak przedmiotów")),
        LocaleTag::NoSuchItem => Some(LocaleEntry::new("has no such item", "nie ma takiego przedmiotu")),
        LocaleTag::NoSuchWeapon => Some(LocaleEntry::new("has no such weapon", "nie ma takiej broni")),
        LocaleTag::NotMarked => Some(LocaleEntry::new("is not marked to be improved", "nie jest oznaczone do rozwinięcia")),
        LocaleTag::Occult => Some(LocaleEntry::new("Occult", "Okultyzm")),
        LocaleTag::OperateHeavyMachinery => Some(LocaleEntry::new("Operate Heavy Machinery", "Obsługa Ciężkiego Sprzętu")),
        LocaleTag::Outmaneuver => Some(LocaleEntry::new("Outmaneuver", "Pewna Postawa")),
        LocaleTag::Outsider => Some(LocaleEntry::new("Outsider", "Autsajder")),
        LocaleTag::Pcs => Some(LocaleEntry::new("pcs", "szt")),
        LocaleTag::Penalty => Some(LocaleEntry::new("➖ Penalty", "➖ Karne")),
        LocaleTag::Persuade => Some(LocaleEntry::new("Persuade", "Perswazja")),
        LocaleTag::PhotographicMemory => Some(LocaleEntry::new("Photographic Memory", "Fotograficzna Pamięć")),
        LocaleTag::Pilot => Some(LocaleEntry::new("Pilot", "Pilotowanie")),
        LocaleTag::PilotAny => Some(LocaleEntry::new("Pilot (any)", "Pilotowanie (dowolne)")),
        LocaleTag::PointsTowards => Some(LocaleEntry::new("pts to", "pkt do")),
        LocaleTag::Pow => Some(LocaleEntry::new("POW", "MOC")),
        LocaleTag::Power => Some(LocaleEntry::new("Power", "Moc")),
        LocaleTag::PowerLifter => Some(LocaleEntry::new("Power Lifter", "Ciężarowiec")),
        LocaleTag::PrepareForTheConsequences => Some(LocaleEntry::new("Prepare for the consequences...", "Przygotuj się na konsekwencje...")),
        LocaleTag::PsychicPower => Some(LocaleEntry::new("Psychic Power", "Moc Parapsychiczna")),
        LocaleTag::Psychoanalysis => Some(LocaleEntry::new("Psychoanalysis", "Psychoanaliza")),
        LocaleTag::Psychology => Some(LocaleEntry::new("Psychology", "Psychologia")),
        LocaleTag::PulpArchetype => Some(LocaleEntry::new("Pulp Archetype", "Pulpowy Archetyp")),
        LocaleTag::PulpTalents => Some(LocaleEntry::new("Pulp Talents", "Pulpowe Talenty")),
        LocaleTag::PushRoll => Some(LocaleEntry::new("🥊 Push", "🥊 Forsuj")),
        LocaleTag::QuickDraw => Some(LocaleEntry::new("Quick Draw", "Szybkie Dobywanie")),
        LocaleTag::QuickHealer => Some(LocaleEntry::new("Quick Healer", "Szybka Regeneracja")),
        LocaleTag::QuickStudy => Some(LocaleEntry::new("Quick Study", "Pojętny Uczeń")),
        LocaleTag::Range => Some(LocaleEntry::new("Range", "Zasięg")),
        LocaleTag::RapidAttack => Some(LocaleEntry::new("Rapid Attack", "Szybki Atak")),
        LocaleTag::RapidFire => Some(LocaleEntry::new("Rapid Fire", "Rewolwerowiec")),
        LocaleTag::ReadLips => Some(LocaleEntry::new("Read Lips", "Czytanie z Ruchu Warg")),
        LocaleTag::Received => Some(LocaleEntry::new("received", "otrzymano")),
        LocaleTag::Reloaded => Some(LocaleEntry::new("Reloaded", "Przeładowano")),
        LocaleTag::Resilient => Some(LocaleEntry::new("Resilient", "Nerwy ze Stali")),
        LocaleTag::Resourceful => Some(LocaleEntry::new("Resourceful", "Zaradność")),
        LocaleTag::Result => Some(LocaleEntry::new("Result", "Wynik")),
        LocaleTag::Results => Some(LocaleEntry::new("Results", "Wyniki")),
        LocaleTag::Ride => Some(LocaleEntry::new("Ride", "Jeździectwo")),
        LocaleTag::Rogue => Some(LocaleEntry::new("Rogue", "Buntownik")),
        LocaleTag::RollConCheckBlackOut => Some(LocaleEntry::new("Roll a **CON** test not to blackout.", "Rzuć test **KON**, aby nie stracić przytomności.")),
        LocaleTag::RollConCheckDie => Some(LocaleEntry::new("Roll a **CON** test not to **die**.\nYou'll be rolling this every round until someone helps you...", "Rzuć test **KON**, aby nie **umrzeć**.\nBędziesz rzucał co rundę dopóki ktoś Ci nie pomoże...")),
        LocaleTag::RollIntCheck => Some(LocaleEntry::new("Roll an **INT** check if you **really** understood what just happened...", "Rzuć test **INT**, aby sprawdzić czy **naprawdę** pojąłeś co się właśnie stało...")),
        LocaleTag::Rolls => Some(LocaleEntry::new("🎲", "🎲")),
        LocaleTag::Rounds => Some(LocaleEntry::new("rounds", "pocisków")),
        LocaleTag::Sanity => Some(LocaleEntry::new("Sanity", "Poczytalność")),
        LocaleTag::Scary => Some(LocaleEntry::new("Scary", "Zakapior")),
        LocaleTag::Scholar => Some(LocaleEntry::new("Scholar", "Uczony")),
        LocaleTag::Science => Some(LocaleEntry::new("Science", "Nauka")),
        LocaleTag::ScienceAny => Some(LocaleEntry::new("Science (any)", "Nauka (dowolna)")),
        LocaleTag::Seeker => Some(LocaleEntry::new("Seeker", "Poszukiwacz Prawdy")),
        LocaleTag::SetLanguageTo => Some(LocaleEntry::new("Set language to", "Ustawiono język na")),
        LocaleTag::Shadow => Some(LocaleEntry::new("Shadow", "Cień")),
        LocaleTag::SharpWitted => Some(LocaleEntry::new("Sharp Witted", "Bystry Umysł")),
        LocaleTag::Sidekick => Some(LocaleEntry::new("Sidekick", "Pomagier")),
        LocaleTag::Siz => Some(LocaleEntry::new("SIZ", "BC")),
        LocaleTag::Size => Some(LocaleEntry::new("Size", "Budowa Ciała")),
        LocaleTag::Skill => Some(LocaleEntry::new("Skill", "Umiejętność")),
        LocaleTag::SkillMarked => Some(LocaleEntry::new("Skill marked to improve.", "Umiejętność oznaczona do rozwinięcia.")),
        LocaleTag::SkillUnmarked => Some(LocaleEntry::new("Skill unmarked from improve.", "Umiejętność odznaczona z rozwinięcia.")),
        LocaleTag::SleightOfHand => Some(LocaleEntry::new("Sleight of Hand", "Zręczne Palce")),
        LocaleTag::SmoothTalker => Some(LocaleEntry::new("Smooth Talker", "Bajerant")),
        LocaleTag::SorryTooManyCharacters => Some(LocaleEntry::new("Sorry, you have too many characters already.", "Wybacz, masz już za dużo postaci.")),
        LocaleTag::Sp => Some(LocaleEntry::new("SP", "PP")),
        LocaleTag::SpotHidden => Some(LocaleEntry::new("Spot Hidden", "Spostrzegawczość")),
        LocaleTag::Steadfast => Some(LocaleEntry::new("Steadfast", "Bojownik o Sprawę")),
        LocaleTag::Stealth => Some(LocaleEntry::new("Stealth", "Ukrywanie")),
        LocaleTag::StoutConstitution => Some(LocaleEntry::new("Stout Constitution", "Zahartowany")),
        LocaleTag::Str => Some(LocaleEntry::new("STR", "S")),
        LocaleTag::Strength => Some(LocaleEntry::new("Strength", "Siła")),
        LocaleTag::StrongWilled => Some(LocaleEntry::new("Strong Willed", "Silna Wola")),
        LocaleTag::Success => Some(LocaleEntry::new("⭐ Success", "⭐ Sukces")),
        LocaleTag::Survival => Some(LocaleEntry::new("Survival", "Sztuka Przetrwania")),
        LocaleTag::SurvivalAny => Some(LocaleEntry::new("Survival (any)", "Sztuka Przetrwania (dowolna)")),
        LocaleTag::Swashbuckler => Some(LocaleEntry::new("Swashbuckler", "Zawadiaka")),
        LocaleTag::Swim => Some(LocaleEntry::new("Swim", "Pływanie")),
        LocaleTag::TempInsanity => Some(LocaleEntry::new("Temporal insanity!", "Atak szaleństwa!")),
        LocaleTag::TempInsanityThreat => Some(LocaleEntry::new("Temporal insanity threat!", "Ryzyko ataku szaleństwa!")),
        LocaleTag::ThrillSeeker => Some(LocaleEntry::new("Thrill Seeker", "Śmiałek")),
        LocaleTag::Throw => Some(LocaleEntry::new("Throw", "Rzucanie")),
        LocaleTag::ToughGuy => Some(LocaleEntry::new("Tough Guy", "Twardziel")),
        LocaleTag::Track => Some(LocaleEntry::new("Track", "Tropienie")),
        LocaleTag::TwoFisted => Some(LocaleEntry::new("Two-Fisted", "Zabijaka")),
        LocaleTag::Unarmed => Some(LocaleEntry::new("Unarmed", "Nieuzbrojony")),
        LocaleTag::Value => Some(LocaleEntry::new("Value", "Wartość")),
        LocaleTag::Weapon => Some(LocaleEntry::new("weapon", "broń")),
        LocaleTag::WeaponJammed => Some(LocaleEntry::new("Weapon has jammed!", "Broń się zacięła!")),
        LocaleTag::Weapons => Some(LocaleEntry::new("Weapons", "Broń")),
        LocaleTag::WeirdScience => Some(LocaleEntry::new("Weird Science", "Szalona Nauka")),
        LocaleTag::YouBlackOut => Some(LocaleEntry::new("You black out", "Tracisz przytomność.")),
        LocaleTag::YouFell => Some(LocaleEntry::new("You fell.", "Upadasz.")),
        LocaleTag::YouGotLuckyThisTIme => Some(LocaleEntry::new("You got lucky this time...", "Tym razem ci się poszczęściło...")),
        _ => None,
    }
}

/// The tag at a position of the text table.
pub fn locale_tag_at(i: usize) -> (r: LocaleTag)
    requires
        i < LOCALE_TABLE_LEN,
    ensures
        r == spec_locale_tags()[i as int],
{
    match i {
        0 => LocaleTag::Agony,
        1 => LocaleTag::Ammo,
        2 => LocaleTag::Attacks,
        3 => LocaleTag::BodyHealed,
        4 => LocaleTag::BodyWounded,
        5 => LocaleTag::Bonus,
        6 => LocaleTag::BonusDieToFirstAction,
        7 => LocaleTag::CantRemoveDefaultWeapon,
        8 => LocaleTag::CantSpendLuck,
        9 => LocaleTag::Characteristic,
        10 => LocaleTag::CharacterNotFound,
        11 => LocaleTag::ComesBackWithFullStrength,
        12 => LocaleTag::CoreCharacteristic,
        13 => LocaleTag::CriticalFailure,
        14 => LocaleTag::CriticalSuccess,
        15 => LocaleTag::Damage,
        16 => LocaleTag::DeathInevitable,
        17 => LocaleTag::Dice,
        18 => LocaleTag::ExtremeDamage,
        19 => LocaleTag::ExtremeSuccess,
        20 => LocaleTag::Failure,
        21 => LocaleTag::Fight,
        22 => LocaleTag::FightEnd,
        23 => LocaleTag::From,
        24 => LocaleTag::GoneMad,
        25 => LocaleTag::HardSuccess,
        26 => LocaleTag::Impaling,
        27 => LocaleTag::InClip,
        28 => LocaleTag::IndefInsanity,
        29 => LocaleTag::Item,
        30 => LocaleTag::Items,
        31 => LocaleTag::KnockOut,
        32 => LocaleTag::LosesFirstRound,
        33 => LocaleTag::MajorWound,
        34 => LocaleTag::MajorWoundHealed,
        35 => LocaleTag::Malfunction,
        36 => LocaleTag::ManeuverBuildError,
        37 => LocaleTag::MaxSanitySet,
        38 => LocaleTag::MindHealed,
        39 => LocaleTag::MindShattered,
        40 => LocaleTag::Name,
        41 => LocaleTag::NoCharacters,
        42 => LocaleTag::NoCharacterSelected,
        43 => LocaleTag::NoItems,
        44 => LocaleTag::NoSuchItem,
        45 => LocaleTag::NoSuchWeapon,
        46 => LocaleTag::NotMarked,
        47 => LocaleTag::Pcs,
        48 => LocaleTag::Penalty,
        49 => LocaleTag::PointsTowards,
        50 => LocaleTag::PrepareForTheConsequences,
        51 => LocaleTag::PulpArchetype,
        52 => LocaleTag::PulpTalents,
        53 => LocaleTag::PushRoll,
        54 => LocaleTag::Range,
        55 => LocaleTag::Received,
        56 => LocaleTag::Reloaded,
        57 => LocaleTag::Result,
        58 => LocaleTag::Results,
        59 => LocaleTag::RollConCheckBlackOut,
        60 => LocaleTag::RollConCheckDie,
        61 => LocaleTag::RollIntCheck,
        62 => LocaleTag::Rolls,
        63 => LocaleTag::Rounds,
        64 => LocaleTag::SetLanguageTo,
        65 => LocaleTag::SkillMarked,
        66 => LocaleTag::SkillUnmarked,
        67 => LocaleTag::SorryTooManyCharacters,
        68 => LocaleTag::Success,
        69 => LocaleTag::TempInsanity,
        70 => LocaleTag::TempInsanityThreat,
        71 => LocaleTag::Unarmed,
        72 => LocaleTag::Value,
        73 => LocaleTag::Weapon,
        74 => LocaleTag::WeaponJammed,
        75 => LocaleTag::Weapons,
        76 => LocaleTag::YouBlackOut,
        77 => LocaleTag::YouFell,
        78 => LocaleTag::YouGotLuckyThisTIme,
        79 => LocaleTag::App,
        80 => LocaleTag::Con,
        81 => LocaleTag::Dex,
        82 => LocaleTag::Edu,
        83 => LocaleTag::Int,
        84 => LocaleTag::Pow,
        85 => LocaleTag::Siz,
        86 => LocaleTag::Str,
        87 => LocaleTag::Appearance,
        88 => LocaleTag::Constitution,
        89 => LocaleTag::Dexterity,
        90 => LocaleTag::Education,
        91 => LocaleTag::Intelligence,
        92 => LocaleTag::Power,
        93 => LocaleTag::Size,
        94 => LocaleTag::Strength,
        95 => LocaleTag::Build,
        96 => LocaleTag::DamageBonus,
        97 => LocaleTag::Db,
        98 => LocaleTag::HitPoints,
        99 => LocaleTag::Hp,
        100 => LocaleTag::Luck,
        101 => LocaleTag::MagicPoints,
        102 => LocaleTag::Move,
        103 => LocaleTag::Mp,
        104 => LocaleTag::Sanity,
        105 => LocaleTag::Skill,
        106 => LocaleTag::Sp,
        107 => LocaleTag::Adventurer,
        108 => LocaleTag::Beefcake,
        109 => LocaleTag::BonVivant,
        110 => LocaleTag::ColdBlooded,
        111 => LocaleTag::Dreamer,
        112 => LocaleTag::Egghead,
        113 => LocaleTag::Explorer,
        114 => LocaleTag::FemmeFatale,
        115 => LocaleTag::GreaseMonkey,
        116 => LocaleTag::HardBoiled,
        117 => LocaleTag::Harlequin,
        118 => LocaleTag::Hunter,
        119 => LocaleTag::Mystic,
        120 => LocaleTag::Outsider,
        121 => LocaleTag::Rogue,
        122 => LocaleTag::Scholar,
        123 => LocaleTag::Seeker,
        124 => LocaleTag::Sidekick,
        125 => LocaleTag::Steadfast,
        126 => LocaleTag::Swashbuckler,
        127 => LocaleTag::ThrillSeeker,
        128 => LocaleTag::TwoFisted,
        129 => LocaleTag::Alert,
        130 => LocaleTag::AnimalCompanion,
        131 => LocaleTag::ArcaneInsight,
        132 => LocaleTag::BeadyEye,
        133 => LocaleTag::Endurance,
        134 => LocaleTag::FastLoad,
        135 => LocaleTag::FleetFooted,
        136 => LocaleTag::Gadget,
        137 => LocaleTag::Handy,
        138 => LocaleTag::Hardened,
        139 => LocaleTag::HeavyHitter,
        140 => LocaleTag::IronLiver,
        141 => LocaleTag::KeenHearing,
        142 => LocaleTag::KeenVision,
        143 => LocaleTag::Linguist,
        144 => LocaleTag::Lore,
        145 => LocaleTag::Lucky,
        146 => LocaleTag::MasterOfDisguise,
        147 => LocaleTag::MythosKnowledge,
        148 => LocaleTag::NightVision,
        149 => LocaleTag::Nimble,
        150 => LocaleTag::Outmaneuver,
        151 => LocaleTag::PhotographicMemory,
        152 => LocaleTag::PowerLifter,
        153 => LocaleTag::PsychicPower,
        154 => LocaleTag::QuickDraw,
        155 => LocaleTag::QuickHealer,
        156 => LocaleTag::QuickStudy,
        157 => LocaleTag::RapidAttack,
        158 => LocaleTag::RapidFire,
        159 => LocaleTag::Resilient,
        160 => LocaleTag::Resourceful,
        161 => LocaleTag::Scary,
        162 => LocaleTag::Shadow,
        163 => LocaleTag::SharpWitted,
        164 => LocaleTag::SmoothTalker,
        165 => LocaleTag::StoutConstitution,
        166 => LocaleTag::StrongWilled,
        167 => LocaleTag::ToughGuy,
        168 => LocaleTag::WeirdScience,
        169 => LocaleTag::Accounting,
        170 => LocaleTag::AnimalHandling,
        171 => LocaleTag::Anthropology,
        172 => LocaleTag::Appraise,
        173 => LocaleTag::Archeology,
        174 => LocaleTag::ArtCraft,
        175 => LocaleTag::ArtCraftAny,
        176 => LocaleTag::Artillery,
        177 => LocaleTag::Charm,
        178 => LocaleTag::Climb,
        179 => LocaleTag::ComputerUse,
        180 => LocaleTag::CreditRating,
        181 => LocaleTag::CthulhuMythos,
        182 => LocaleTag::Demolitions,
        183 => LocaleTag::Disguise,
        184 => LocaleTag::Diving,
        185 => LocaleTag::Dodge,
        186 => LocaleTag::DriveAuto,
        187 => LocaleTag::ElectricalRepair,
        188 => LocaleTag::Electronics,
        189 => LocaleTag::FastTalk,
        190 => LocaleTag::Fighting,
        191 => LocaleTag::FightingBrawl,
        192 => LocaleTag::Firearms,
        193 => LocaleTag::FirearmsHandgun,
        194 => LocaleTag::FirearmsRifleShotgun,
        195 => LocaleTag::FirstAid,
        196 => LocaleTag::History,
        197 => LocaleTag::Hypnosis,
        198 => LocaleTag::Intimidate,
        199 => LocaleTag::Jump,
        200 => LocaleTag::LanguageAnyOther,
        201 => LocaleTag::LanguageOther,
        202 => LocaleTag::LanguageOwn,
        203 => LocaleTag::Law,
        204 => LocaleTag::LibraryUse,
        205 => LocaleTag::Listen,
        206 => LocaleTag::Locksmith,
        207 => LocaleTag::MechanicalRepair,
        208 => LocaleTag::Medicine,
        209 => LocaleTag::NaturalWorld,
        210 => LocaleTag::Navigate,
        211 => LocaleTag::Occult,
        212 => LocaleTag::OperateHeavyMachinery,
        213 => LocaleTag::Persuade,
        214 => LocaleTag::Pilot,
        215 => LocaleTag::PilotAny,
        216 => LocaleTag::Psychoanalysis,
        217 => LocaleTag::Psychology,
        218 => LocaleTag::ReadLips,
        219 => LocaleTag::Ride,
        220 => LocaleTag::Science,
        221 => LocaleTag::ScienceAny,
        222 => LocaleTag::SleightOfHand,
        223 => LocaleTag::SpotHidden,
        224 => LocaleTag::Stealth,
        225 => LocaleTag::Survival,
        226 => LocaleTag::SurvivalAny,
        227 => LocaleTag::Swim,
        228 => LocaleTag::Throw,
        _ => LocaleTag::Track,
    }
}

/// The table entry of a tag.
pub fn locale_entry_by_tag(tag: LocaleTag) -> (r: LocaleEntry)
    requires
        spec_locale_entry(tag) is Some,
    ensures
        spec_locale_entry(tag) == Some(r@),
{
    locale_entry_opt(tag).unwrap()
}

/// Whether the table entry of `tag` exists and equals `text` up to ASCII case.
pub open spec fn spec_tag_matches(tag: LocaleTag, text: Seq<char>) -> bool {
    spec_locale_entry(tag) matches Some(e) && spec_entry_equals(e, text)
}

/// The first tag of the table whose entry equals `text` up to ASCII case.
pub open spec fn spec_tag_by_str(text: Seq<char>) -> Option<LocaleTag> {
    match spec_first_index(spec_locale_tags(), |t: LocaleTag| spec_tag_matches(t, text)) {
        Some(i) => Some(spec_locale_tags()[i]),
        None => None,
    }
}

/// The first tag of the table whose entry equals `string`, ignoring ASCII case.
pub fn locale_tag_by_str(string: &str) -> (r: Option<LocaleTag>)
    ensures
        r == spec_tag_by_str(string@),
        r matches Some(t) ==> spec_locale_tags().contains(t) && spec_tag_matches(t, string@),
        r is None <==> forall|i: int| 0 <= i < spec_locale_tags().len()
            ==> !spec_tag_matches(#[trigger] spec_locale_tags()[i], string@),
{
    let ghost tags = spec_locale_tags();
    let ghost p = |t: LocaleTag| spec_tag_matches(t, string@);
    proof {
        lemma_first_index(tags, p);
        assert(tags.take(0) =~= Seq::<LocaleTag>::empty());
    }
    let mut i: usize = 0;
    while i < LOCALE_TABLE_LEN
        invariant
            i <= LOCALE_TABLE_LEN,
            tags == spec_locale_tags(),
            tags.len() == LOCALE_TABLE_LEN,
            p == (|t: LocaleTag| spec_tag_matches(t, string@)),
            spec_first_index(tags.take(i as int), p) is None,
        decreases LOCALE_TABLE_LEN - i,
    {
        let tag = locale_tag_at(i);
        proof { lemma_first_index_step(tags, p, i as int); }
        if let Some(e) = locale_entry_opt(tag) {
            if e.equals_ignore_case(string) {
                assert(p(tags[i as int]));
                proof {
                    lemma_first_index(tags.take(i as int), p);
                    lemma_first_index(tags.take(i as int + 1), p);
                    lemma_first_index(tags, p);
                    assert forall|j: int| 0 <= j < i implies !p(#[trigger] tags[j]) by {
                        assert(tags.take(i as int)[j] == tags[j]);
                    }
                    match spec_first_index(tags, p) {
                        Some(k) => {
                            if k > i {
                            }
                            assert(k == i);
                        },
                        None => {},
                    }
                }
                return Some(tag);
            }
        }
        i += 1;
    }
    proof {
        lemma_first_index_full(tags, p);
        lemma_first_index(tags, p);
    }
    None
}

/// The table entry that equals `string`, ignoring ASCII case.
pub fn locale_entry_by_str(string: &str) -> (r: Option<LocaleEntry>)
    ensures
        match r {
            Some(e) => spec_tag_by_str(string@) matches Some(t) && spec_locale_entry(t) == Some(e@),
            None => spec_tag_by_str(string@) is None,
        },
        r matches Some(e) ==> exists|t: LocaleTag| spec_locale_tags().contains(t) && spec_tag_matches(t, string@)
            && spec_locale_entry(t) == Some(e@),
        r is None <==> forall|i: int| 0 <= i < spec_locale_tags().len()
            ==> !spec_tag_matches(#[trigger] spec_locale_tags()[i], string@),
{
    match locale_tag_by_str(string) {
        Some(tag) => Some(locale_entry_by_tag(tag)),
        None => None,
    }
}

/// The text of a tag in a language.
pub fn locale_text_by_tag_lang(lang: LocaleLang, tag: LocaleTag) -> (r: String)
    requires
        spec_locale_entry(tag) is Some,
    ensures
        r@ == spec_text(spec_locale_entry(tag)->0, lang),
{
    locale_entry_by_tag(tag).get(lang)
}

} // verus!
