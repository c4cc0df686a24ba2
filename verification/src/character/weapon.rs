//! Weapons: their damage by range, their attacks per round and their ammunition.
use crate::locale::{remove_spaces, spec_remove_spaces, LocaleLang};
use crate::text::{
    parse_i32, push_int, replace_char, spec_int_str, spec_parse_i32, spec_replace, spec_split, split_char, str_equal,
};
use vstd::prelude::*;

verus! {

/// What a weapon action achieved.
#[derive(Debug, Clone, Copy, PartialEq, Eq, Structural)]
pub enum WeaponOk {
    AddedRounds(i32),
    CriticalHit,
    Hit,
    Loaded(i32),
    Miss,
    RemovedRounds(i32),
    Shot(i32),
}

/// The message of an outcome, in a language.
pub open spec fn spec_weapon_ok_text(o: WeaponOk, lang: LocaleLang) -> Seq<char> {
    match (o, lang) {
        (WeaponOk::AddedRounds(r), LocaleLang::Polski) => "Dodano pocisków: "@ + spec_int_str(r as int),
        (WeaponOk::AddedRounds(r), LocaleLang::English) => "Added rounds: "@ + spec_int_str(r as int),
        (WeaponOk::CriticalHit, LocaleLang::Polski) => "Trafienie krytyczne!"@,
        (WeaponOk::CriticalHit, LocaleLang::English) => "Critical Hit!"@,
        (WeaponOk::Hit, LocaleLang::Polski) => "Trafienie!"@,
        (WeaponOk::Hit, LocaleLang::English) => "Hit!"@,
        (WeaponOk::Loaded(r), LocaleLang::Polski) => "Załadowano pocisków: "@ + spec_int_str(r as int),
        (WeaponOk::Loaded(r), LocaleLang::English) => "Loaded rounds: "@ + spec_int_str(r as int),
        (WeaponOk::Miss, LocaleLang::Polski) => "Pudło!"@,
        (WeaponOk::Miss, LocaleLang::English) => "Miss!"@,
        (WeaponOk::RemovedRounds(r), LocaleLang::Polski) => "Odjęto pocisków: "@ + spec_int_str(r as int),
        (WeaponOk::RemovedRounds(r), LocaleLang::English) => "Removed rounds: "@ + spec_int_str(r as int),
        (WeaponOk::Shot(r), LocaleLang::Polski) => "Wystrzelono pocisków: "@ + spec_int_str(r as int),
        (WeaponOk::Shot(r), LocaleLang::English) => "Shot rounds: "@ + spec_int_str(r as int),
    }
}

/// `prefix` followed by `{}` of `n`.
fn text_with_int(prefix: &str, n: i32) -> (r: String)
    ensures
        r@ == prefix@ + spec_int_str(n as int),
{
    let mut s = String::from_str(prefix);
    push_int(&mut s, n as i64);
    s
}

/// `prefix`, `{}` of `n`, then `suffix`.
fn text_around_int(prefix: &str, n: i32, suffix: &str) -> (r: String)
    ensures
        r@ == prefix@ + spec_int_str(n as int) + suffix@,
{
    let mut s = text_with_int(prefix, n);
    s.append(suffix);
    s
}

impl WeaponOk {
    pub fn to_string(&self, lang: LocaleLang) -> (r: String)
        ensures
            r@ == spec_weapon_ok_text(*self, lang),
    {
        match (self, lang) {
            (WeaponOk::AddedRounds(r), LocaleLang::Polski) => text_with_int("Dodano pocisków: ", *r),
            (WeaponOk::AddedRounds(r), LocaleLang::English) => text_with_int("Added rounds: ", *r),
            (WeaponOk::CriticalHit, LocaleLang::Polski) => String::from_str("Trafienie krytyczne!"),
            (WeaponOk::CriticalHit, LocaleLang::English) => String::from_str("Critical Hit!"),
            (WeaponOk::Hit, LocaleLang::Polski) => String::from_str("Trafienie!"),
            (WeaponOk::Hit, LocaleLang::English) => String::from_str("Hit!"),
            (WeaponOk::Loaded(r), LocaleLang::Polski) => text_with_int("Załadowano pocisków: ", *r),
            (WeaponOk::Loaded(r), LocaleLang::English) => text_with_int("Loaded rounds: ", *r),
            (WeaponOk::Miss, LocaleLang::Polski) => String::from_str("Pudło!"),
            (WeaponOk::Miss, LocaleLang::English) => String::from_str("Miss!"),
            (WeaponOk::RemovedRounds(r), LocaleLang::Polski) => text_with_int("Odjęto pocisków: ", *r),
            (WeaponOk::RemovedRounds(r), LocaleLang::English) => text_with_int("Removed rounds: ", *r),
            (WeaponOk::Shot(r), LocaleLang::Polski) => text_with_int("Wystrzelono pocisków: ", *r),
            (WeaponOk::Shot(r), LocaleLang::English) => text_with_int("Shot rounds: ", *r),
        }
    }
}

/// Why a weapon action was refused.
#[derive(Debug, Clone, Copy, PartialEq, Eq, Structural)]
pub enum WeaponError {
    DoesntUseAmmo,
    CantRemoveRounds(i32),
    CantShootRounds(i32),
    ClipEmpty,
    NoAmmo,
    NoNeedToReload,
}

/// The message of a refusal, in a language.
pub open spec fn spec_weapon_error_text(e: WeaponError, lang: LocaleLang) -> Seq<char> {
    match (e, lang) {
        (WeaponError::DoesntUseAmmo, LocaleLang::Polski) => "Ta broń nie korzysta z amunicji."@,
        (WeaponError::DoesntUseAmmo, LocaleLang::English) => "This weapon doesn't use ammo."@,
        (WeaponError::CantRemoveRounds(r), LocaleLang::Polski) => "Nie można usunąć "@ + spec_int_str(r as int) + " pocisków."@,
        (WeaponError::CantRemoveRounds(r), LocaleLang::English) => "Can't remove "@ + spec_int_str(r as int) + " rounds."@,
        (WeaponError::ClipEmpty, LocaleLang::Polski) => "Pusty magazynek!"@,
        (WeaponError::ClipEmpty, LocaleLang::English) => "Empty clip!"@,
        (WeaponError::NoAmmo, LocaleLang::Polski) => "Brak amunicji!"@,
        (WeaponError::NoAmmo, LocaleLang::English) => "No ammo left!"@,
        (WeaponError::NoNeedToReload, LocaleLang::Polski) => "Nie ma potrzeby przeładowania."@,
        (WeaponError::NoNeedToReload, LocaleLang::English) => "No need to reload."@,
        (WeaponError::CantShootRounds(r), LocaleLang::Polski) => "Nie można wystrzelić "@ + spec_int_str(r as int) + " pocisków"@,
        (WeaponError::CantShootRounds(r), LocaleLang::English) => "Can't shoot "@ + spec_int_str(r as int) + " rounds"@,
    }
}

impl WeaponError {
    pub fn to_string(&self, lang: LocaleLang) -> (r: String)
        ensures
            r@ == spec_weapon_error_text(*self, lang),
    {
        match (self, lang) {
            (WeaponError::DoesntUseAmmo, LocaleLang::Polski) => String::from_str("Ta broń nie korzysta z amunicji."),
            (WeaponError::DoesntUseAmmo, LocaleLang::English) => String::from_str("This weapon doesn't use ammo."),
            (WeaponError::CantRemoveRounds(r), LocaleLang::Polski) => text_around_int("Nie można usunąć ", *r, " pocisków."),
            (WeaponError::CantRemoveRounds(r), LocaleLang::English) => text_around_int("Can't remove ", *r, " rounds."),
            (WeaponError::ClipEmpty, LocaleLang::Polski) => String::from_str("Pusty magazynek!"),
            (WeaponError::ClipEmpty, LocaleLang::English) => String::from_str("Empty clip!"),
            (WeaponError::NoAmmo, LocaleLang::Polski) => String::from_str("Brak amunicji!"),
            (WeaponError::NoAmmo, LocaleLang::English) => String::from_str("No ammo left!"),
            (WeaponError::NoNeedToReload, LocaleLang::Polski) => String::from_str("Nie ma potrzeby przeładowania."),
            (WeaponError::NoNeedToReload, LocaleLang::English) => String::from_str("No need to reload."),
            (WeaponError::CantShootRounds(r), LocaleLang::Polski) => text_around_int("Nie można wystrzelić ", *r, " pocisków"),
            (WeaponError::CantShootRounds(r), LocaleLang::English) => text_around_int("Can't shoot ", *r, " rounds"),
        }
    }
}

/// The rounds of a weapon: those in the clip, those loose, and the size of the clip.
#[derive(Debug, Clone, Copy, PartialEq, Eq, Structural)]
pub struct Ammo {
    pub clip_rounds: i32,
    pub loose_rounds: i32,
    pub clip_size: i32,
}

/// How many rounds a reload moves into the clip: what the clip lacks,
/// or all loose rounds if there are fewer.
pub open spec fn spec_rounds_to_load(a: Ammo) -> int {
    let need = a.clip_size - a.clip_rounds;
    if a.loose_rounds < need { a.loose_rounds as int } else { need }
}

/// A reload: the ammunition after it and its outcome.
pub open spec fn spec_reload(a: Ammo) -> (Ammo, Result<WeaponOk, WeaponError>) {
    if a.clip_size - a.clip_rounds == 0 {
        (a, Err(WeaponError::NoNeedToReload))
    } else if a.loose_rounds == 0 {
        (a, Err(WeaponError::NoAmmo))
    } else {
        let n = spec_rounds_to_load(a);
        (
            Ammo { clip_rounds: (a.clip_rounds + n) as i32, loose_rounds: (a.loose_rounds - n) as i32, ..a },
            Ok(WeaponOk::Loaded(n as i32)),
        )
    }
}

/// A reload stays within `i32`.
pub open spec fn spec_reload_fits(a: Ammo) -> bool {
    &&& i32::MIN <= a.clip_size - a.clip_rounds <= i32::MAX
    &&& (a.clip_size - a.clip_rounds != 0 && a.loose_rounds != 0 ==> {
        &&& i32::MIN <= a.loose_rounds - spec_rounds_to_load(a) <= i32::MAX
        &&& i32::MIN <= a.clip_rounds + spec_rounds_to_load(a) <= i32::MAX
    })
}

/// Shooting `n` rounds from the clip: the ammunition after it and its outcome.
pub open spec fn spec_shoot(a: Ammo, n: i32) -> (Ammo, Result<WeaponOk, WeaponError>) {
    if a.clip_rounds == 0 {
        (a, Err(WeaponError::ClipEmpty))
    } else if a.clip_rounds < n {
        (a, Err(WeaponError::CantShootRounds(n)))
    } else {
        (Ammo { clip_rounds: (a.clip_rounds - n) as i32, ..a }, Ok(WeaponOk::Shot(n)))
    }
}

/// Removing `n` rounds, loose ones first: the ammunition after it and its outcome.
pub open spec fn spec_remove_rounds(a: Ammo, n: i32) -> (Ammo, Result<WeaponOk, WeaponError>) {
    if n > a.loose_rounds + a.clip_rounds {
        (a, Err(WeaponError::CantRemoveRounds(n)))
    } else if n > a.loose_rounds {
        (
            Ammo { clip_rounds: (a.clip_rounds - (n - a.loose_rounds)) as i32, loose_rounds: 0, ..a },
            Ok(WeaponOk::RemovedRounds(n)),
        )
    } else {
        (Ammo { loose_rounds: (a.loose_rounds - n) as i32, ..a }, Ok(WeaponOk::RemovedRounds(n)))
    }
}

impl Ammo {
    /// An empty clip of `clip_size` rounds and `rounds` loose rounds.
    pub fn new(clip_size: i32, rounds: i32) -> (r: Self)
        ensures
            r == (Ammo { clip_rounds: 0, loose_rounds: rounds, clip_size }),
    {
        Ammo { clip_size, loose_rounds: rounds, clip_rounds: 0 }
    }

    pub fn reload(&mut self) -> (r: Result<WeaponOk, WeaponError>)
        requires
            spec_reload_fits(*old(self)),
        ensures
            (*final(self), r) == spec_reload(*old(self)),
    {
        let mut rounds_to_load = self.clip_size - self.clip_rounds;
        if rounds_to_load == 0 {
            return Err(WeaponError::NoNeedToReload);
        } else if self.loose_rounds == 0 {
            return Err(WeaponError::NoAmmo);
        } else if self.loose_rounds < rounds_to_load {
            rounds_to_load = self.loose_rounds;
        }
        self.clip_rounds = self.clip_rounds + rounds_to_load;
        self.loose_rounds = self.loose_rounds - rounds_to_load;
        Ok(WeaponOk::Loaded(rounds_to_load))
    }

    pub fn shoot_rounds(&mut self, rounds_to_shoot: i32) -> (r: Result<WeaponOk, WeaponError>)
        requires
            old(self).clip_rounds - rounds_to_shoot <= i32::MAX,
        ensures
            (*final(self), r) == spec_shoot(*old(self), rounds_to_shoot),
    {
        if self.clip_rounds == 0 {
            return Err(WeaponError::ClipEmpty);
        }
        if self.clip_rounds < rounds_to_shoot {
            return Err(WeaponError::CantShootRounds(rounds_to_shoot));
        }
        self.clip_rounds = self.clip_rounds - rounds_to_shoot;
        Ok(WeaponOk::Shot(rounds_to_shoot))
    }

    pub fn add_rounds(&mut self, rounds_to_add: i32) -> (r: WeaponOk)
        requires
            i32::MIN <= old(self).loose_rounds + rounds_to_add <= i32::MAX,
        ensures
            *final(self) == (Ammo { loose_rounds: (old(self).loose_rounds + rounds_to_add) as i32, ..*old(self) }),
            r == WeaponOk::AddedRounds(rounds_to_add),
    {
        self.loose_rounds = self.loose_rounds + rounds_to_add;
        WeaponOk::AddedRounds(rounds_to_add)
    }

    pub fn remove_rounds(&mut self, rounds_to_remove: i32) -> (r: Result<WeaponOk, WeaponError>)
        requires
            i32::MIN <= old(self).loose_rounds + old(self).clip_rounds <= i32::MAX,
            old(self).loose_rounds - rounds_to_remove <= i32::MAX,
        ensures
            (*final(self), r) == spec_remove_rounds(*old(self), rounds_to_remove),
    {
        if rounds_to_remove > self.loose_rounds + self.clip_rounds {
            return Err(WeaponError::CantRemoveRounds(rounds_to_remove));
        }
        if rounds_to_remove > self.loose_rounds {
            self.clip_rounds = self.clip_rounds - (rounds_to_remove - self.loose_rounds);
            self.loose_rounds = 0;
        } else {
            self.loose_rounds = self.loose_rounds - rounds_to_remove;
        }
        Ok(WeaponOk::RemovedRounds(rounds_to_remove))
    }
}

/// How the attacks of a round are penalised.
#[derive(Debug, Clone, Copy, PartialEq, Eq, Structural)]
pub enum AttacksModifier {
    NoPenalty,
    OnePenaltyToAll,
    IncreasingPenalty,
}

/// A number of attacks in a round and their penalty.
#[derive(Debug, Clone, Copy, PartialEq, Eq, Structural)]
pub struct Attack {
    pub count: i32,
    pub modifier: AttacksModifier,
}

/// `n` penalty marks.
pub open spec fn spec_dashes(n: nat) -> Seq<char>
    decreases n,
{
    if n == 0 { Seq::<char>::empty() } else { spec_dashes((n - 1) as nat).push('-') }
}

impl Attack {
    pub fn new(count: i32, modifier: AttacksModifier) -> (r: Self)
        ensures
            r == (Attack { count, modifier }),
    {
        Attack { count, modifier }
    }

    /// The penalty marks of the `attack_number`-th attack: none, one,
    /// or one per attack so far.
    pub fn get_modifier(&self, attack_number: i32) -> (r: String)
        requires
            self.modifier == AttacksModifier::IncreasingPenalty ==> attack_number >= 0,
        ensures
            r@ == match self.modifier {
                AttacksModifier::NoPenalty => Seq::<char>::empty(),
                AttacksModifier::OnePenaltyToAll => seq!['-'],
                AttacksModifier::IncreasingPenalty => spec_dashes(attack_number as nat),
            },
    {
        proof { reveal_strlit("-"); }
        match self.modifier {
            AttacksModifier::NoPenalty => String::new(),
            AttacksModifier::OnePenaltyToAll => String::from_str("-"),
            AttacksModifier::IncreasingPenalty => {
                let mut s = String::new();
                let mut i: i32 = 0;
                while i < attack_number
                    invariant
                        0 <= i <= attack_number,
                        s@ == spec_dashes(i as nat),
                    decreases attack_number - i,
                {
                    s.append("-");
                    proof { reveal_strlit("-"); }
                    i += 1;
                }
                s
            },
        }
    }
}

/// The attacks that an attacks-per-round text stands for, spaces ignored.
pub open spec fn spec_attacks_from(value: Seq<char>) -> Option<Seq<Attack>> {
    let v = spec_remove_spaces(value);
    if v == "1"@ {
        Some(seq![Attack { count: 1, modifier: AttacksModifier::NoPenalty }])
    } else if v == "2"@ || v == "1or2"@ || v == "1lub2"@ {
        Some(seq![Attack { count: 1, modifier: AttacksModifier::NoPenalty }, Attack { count: 2, modifier: AttacksModifier::NoPenalty }])
    } else if v == "1(2)"@ {
        Some(seq![Attack { count: 1, modifier: AttacksModifier::NoPenalty }, Attack { count: 2, modifier: AttacksModifier::OnePenaltyToAll }])
    } else if v == "1(3)"@ {
        Some(seq![Attack { count: 1, modifier: AttacksModifier::NoPenalty }, Attack { count: 3, modifier: AttacksModifier::OnePenaltyToAll }])
    } else {
        None
    }
}

/// An attacks-per-round text that is none of the known forms.
#[derive(Debug, Clone, Copy, PartialEq, Eq, Structural)]
pub enum AttacksError {
    UnknownForm,
}

/// Reads an attacks-per-round text: `1`, `2`, `1(2)`, `1(3)`, `1 or 2`, `1 lub 2`.
pub fn attacks_from(value: &str) -> (r: Result<Vec<Attack>, AttacksError>)
    ensures
        match spec_attacks_from(value@) {
            Some(a) => r matches Ok(v) && v@ == a,
            None => r == Err::<Vec<Attack>, AttacksError>(AttacksError::UnknownForm),
        },
{
    let v = remove_spaces(value);
    let v = v.as_str();
    if str_equal(v, "1") {
        Ok(vec![Attack::new(1, AttacksModifier::NoPenalty)])
    } else if str_equal(v, "2") || str_equal(v, "1or2") || str_equal(v, "1lub2") {
        Ok(vec![Attack::new(1, AttacksModifier::NoPenalty), Attack::new(2, AttacksModifier::NoPenalty)])
    } else if str_equal(v, "1(2)") {
        Ok(vec![Attack::new(1, AttacksModifier::NoPenalty), Attack::new(2, AttacksModifier::OnePenaltyToAll)])
    } else if str_equal(v, "1(3)") {
        Ok(vec![Attack::new(1, AttacksModifier::NoPenalty), Attack::new(3, AttacksModifier::OnePenaltyToAll)])
    } else {
        Err(AttacksError::UnknownForm)
    }
}

/// The lists of ranges and of damages have different lengths.
#[derive(Debug, Clone, Copy, PartialEq, Eq, Structural)]
pub enum RangeDamageError {
    RangeDamageDiffers,
}

impl RangeDamageError {
    pub fn to_string(&self, lang: LocaleLang) -> (r: String)
        ensures
            r@ == match lang {
                LocaleLang::Polski => "Ilości Zasięgów i Obrażeń się różnią!"@,
                LocaleLang::English => "Ranges and Damages lengths differ!"@,
            },
    {
        match lang {
            LocaleLang::Polski => String::from_str("Ilości Zasięgów i Obrażeń się różnią!"),
            LocaleLang::English => String::from_str("Ranges and Damages lengths differ!"),
        }
    }
}

/// The damage of a weapon up to a range in metres; no range means any distance.
#[derive(Debug)]
pub struct RangeDamage {
    pub range: Option<i32>,
    pub damage: String,
}

impl View for RangeDamage {
    type V = (Option<i32>, Seq<char>);

    open spec fn view(&self) -> (Option<i32>, Seq<char>) {
        (self.range, self.damage@)
    }
}

impl Clone for RangeDamage {
    fn clone(&self) -> (r: Self)
        ensures
            r@ == self@,
    {
        RangeDamage { range: self.range, damage: self.damage.clone() }
    }
}

pub open spec fn spec_range_damage_views(s: Seq<RangeDamage>) -> Seq<(Option<i32>, Seq<char>)> {
    s.map_values(|r: RangeDamage| r@)
}

impl RangeDamage {
    /// Pairs each range with the damage at the same place; a range that is
    /// not an integer stands for any distance.
    pub fn from(ranges: Vec<String>, damages: Vec<String>) -> (r: Result<Vec<Self>, RangeDamageError>)
        ensures
            ranges.len() != damages.len() ==> r == Err::<Vec<Self>, RangeDamageError>(RangeDamageError::RangeDamageDiffers),
            ranges.len() == damages.len() ==> (r matches Ok(v) && spec_range_damage_views(v@)
                == Seq::new(ranges.len() as nat, |i: int| (spec_parse_i32(ranges@[i]@), damages@[i]@))),
    {
        if ranges.len() != damages.len() {
            return Err(RangeDamageError::RangeDamageDiffers);
        }
        let mut out: Vec<RangeDamage> = Vec::new();
        let mut i: usize = 0;
        while i < ranges.len()
            invariant
                ranges.len() == damages.len(),
                i <= ranges.len(),
                spec_range_damage_views(out@) == Seq::new(i as nat, |k: int| (spec_parse_i32(ranges@[k]@), damages@[k]@)),
            decreases ranges.len() - i,
        {
            let rd = RangeDamage { range: parse_i32(ranges[i].as_str()), damage: damages[i].clone() };
            let ghost before = out@;
            out.push(rd);
            assert(spec_range_damage_views(out@) =~= spec_range_damage_views(before).push(rd@));
            assert(spec_range_damage_views(out@) =~= Seq::new(i as nat + 1, |k: int| (spec_parse_i32(ranges@[k]@), damages@[k]@)));
            i += 1;
        }
        Ok(out)
    }
}

/// A weapon of a character.
#[derive(Debug)]
pub struct Weapon {
    pub name: String,
    pub range_dmgs: Vec<RangeDamage>,
    pub attacks: Vec<Attack>,
    pub attacks_query: String,
    pub apply_damage_modifier: bool,
    pub half_damage_modifier: bool,
    pub impaling: bool,
    pub skill: String,
    pub malfunction: Option<i32>,
    pub ammo: Option<Ammo>,
    pub default: bool,
}

pub struct WeaponView {
    pub name: Seq<char>,
    pub range_dmgs: Seq<(Option<i32>, Seq<char>)>,
    pub attacks: Seq<Attack>,
    pub attacks_query: Seq<char>,
    pub apply_damage_modifier: bool,
    pub half_damage_modifier: bool,
    pub impaling: bool,
    pub skill: Seq<char>,
    pub malfunction: Option<i32>,
    pub ammo: Option<Ammo>,
    pub default: bool,
}

impl View for Weapon {
    type V = WeaponView;

    open spec fn view(&self) -> WeaponView {
        WeaponView {
            name: self.name@,
            range_dmgs: spec_range_damage_views(self.range_dmgs@),
            attacks: self.attacks@,
            attacks_query: self.attacks_query@,
            apply_damage_modifier: self.apply_damage_modifier,
            half_damage_modifier: self.half_damage_modifier,
            impaling: self.impaling,
            skill: self.skill@,
            malfunction: self.malfunction,
            ammo: self.ammo,
            default: self.default,
        }
    }
}

pub(crate) fn clone_range_damages(v: &Vec<RangeDamage>) -> (r: Vec<RangeDamage>)
    ensures
        spec_range_damage_views(r@) == spec_range_damage_views(v@),
{
    let mut out: Vec<RangeDamage> = Vec::new();
    let mut i: usize = 0;
    while i < v.len()
        invariant
            i <= v@.len(),
            spec_range_damage_views(out@) == spec_range_damage_views(v@.take(i as int)),
        decreases v@.len() - i,
    {
        let ghost before = out@;
        let c = v[i].clone();
        out.push(c);
        assert(spec_range_damage_views(out@) =~= spec_range_damage_views(before).push(c@));
        assert(spec_range_damage_views(v@.take(i as int + 1)) =~= spec_range_damage_views(v@.take(i as int)).push(v@[i as int]@));
        assert(spec_range_damage_views(out@) =~= spec_range_damage_views(v@.take(i as int + 1)));
        i += 1;
    }
    assert(v@.take(v@.len() as int) =~= v@);
    out
}

impl Clone for Weapon {
    fn clone(&self) -> (r: Self)
        ensures
            r@ == self@,
    {
        let attacks = self.attacks.clone();
        assert(attacks@ =~= self.attacks@);
        Weapon {
            name: self.name.clone(),
            range_dmgs: clone_range_damages(&self.range_dmgs),
            attacks,
            attacks_query: self.attacks_query.clone(),
            apply_damage_modifier: self.apply_damage_modifier,
            half_damage_modifier: self.half_damage_modifier,
            impaling: self.impaling,
            skill: self.skill.clone(),
            malfunction: self.malfunction,
            ammo: self.ammo,
            default: self.default,
        }
    }
}

/// How far a damage reaches: its range, or any distance.
pub open spec fn spec_reach(rd: (Option<i32>, Seq<char>)) -> int {
    match rd.0 {
        Some(r) => r as int,
        None => i32::MAX as int,
    }
}

/// The last damage whose range is within `m` metres.
pub open spec fn spec_last_within(rds: Seq<(Option<i32>, Seq<char>)>, m: int) -> Option<int>
    decreases rds.len(),
{
    if rds.len() == 0 {
        None
    } else if spec_reach(rds.last()) <= m {
        Some(rds.len() - 1)
    } else {
        spec_last_within(rds.drop_last(), m)
    }
}

/// The damage of a weapon at a distance: the last one whose range is
/// within the distance, else the first; with no distance, the first.
pub open spec fn spec_damage_at(rds: Seq<(Option<i32>, Seq<char>)>, distance: Option<i32>) -> Seq<char> {
    match distance {
        Some(m) => match spec_last_within(rds, m as int) {
            Some(i) => rds[i].1,
            None => rds[0].1,
        },
        None => rds[0].1,
    }
}

/// Dice as a language writes them: Polish writes `k` for `d`.
pub open spec fn spec_localised_dice(d: Seq<char>, lang: LocaleLang) -> Seq<char> {
    match lang {
        LocaleLang::Polski => spec_replace(d, 'd', "k"@),
        LocaleLang::English => d,
    }
}

/// Dice as a language writes them.
pub fn localised_dice(d: &str, lang: LocaleLang) -> (r: String)
    ensures
        r@ == spec_localised_dice(d@, lang),
{
    match lang {
        LocaleLang::Polski => replace_char(d, 'd', "k"),
        LocaleLang::English => String::from_str(d),
    }
}


impl Weapon {
    pub fn new(
        name: &str,
        range_dmgs: Vec<RangeDamage>,
        attacks_query: &str,
        apply_damage_modifier: bool,
        impaling: bool,
        skill: &str,
        malfunction: Option<i32>,
        ammo: Option<Ammo>,
    ) -> (r: Self)
        requires
            spec_attacks_from(attacks_query@) is Some,
        ensures
            r@ == (WeaponView {
                name: name@,
                range_dmgs: spec_range_damage_views(range_dmgs@),
                attacks: spec_attacks_from(attacks_query@)->0,
                attacks_query: attacks_query@,
                apply_damage_modifier,
                half_damage_modifier: false,
                impaling,
                skill: skill@,
                malfunction,
                ammo,
                default: false,
            }),
    {
        let attacks = match attacks_from(attacks_query) {
            Ok(a) => a,
            Err(_) => Vec::new(),
        };
        Weapon {
            name: String::from_str(name),
            range_dmgs,
            attacks_query: String::from_str(attacks_query),
            attacks,
            apply_damage_modifier,
            half_damage_modifier: false,
            impaling,
            skill: String::from_str(skill),
            malfunction,
            ammo,
            default: false,
        }
    }

    /// Shoots rounds from the clip.
    pub fn use_ammo(&mut self, rounds: i32) -> (r: Result<WeaponOk, WeaponError>)
        requires
            old(self).ammo matches Some(a) ==> a.clip_rounds - rounds <= i32::MAX,
        ensures
            match old(self).ammo {
                Some(a) => final(self)@ == (WeaponView { ammo: Some(spec_shoot(a, rounds).0), ..old(self)@ })
                    && r == spec_shoot(a, rounds).1,
                None => final(self)@ == old(self)@ && r == Err::<WeaponOk, WeaponError>(WeaponError::DoesntUseAmmo),
            },
    {
        match &mut self.ammo {
            Some(a) => a.shoot_rounds(rounds),
            None => Err(WeaponError::DoesntUseAmmo),
        }
    }

    /// Adds loose rounds.
    pub fn add_ammo(&mut self, rounds: i32) -> (r: Result<WeaponOk, WeaponError>)
        requires
            old(self).ammo matches Some(a) ==> i32::MIN <= a.loose_rounds + rounds <= i32::MAX,
        ensures
            match old(self).ammo {
                Some(a) => final(self)@ == (WeaponView {
                    ammo: Some(Ammo { loose_rounds: (a.loose_rounds + rounds) as i32, ..a }),
                    ..old(self)@
                }) && r == Ok::<WeaponOk, WeaponError>(WeaponOk::AddedRounds(rounds)),
                None => final(self)@ == old(self)@ && r == Err::<WeaponOk, WeaponError>(WeaponError::DoesntUseAmmo),
            },
    {
        match &mut self.ammo {
            Some(a) => Ok(a.add_rounds(rounds)),
            None => Err(WeaponError::DoesntUseAmmo),
        }
    }

    /// Removes rounds, loose ones first.
    pub fn remove_ammo(&mut self, rounds: i32) -> (r: Result<WeaponOk, WeaponError>)
        requires
            old(self).ammo matches Some(a) ==> {
                &&& i32::MIN <= a.loose_rounds + a.clip_rounds <= i32::MAX
                &&& a.loose_rounds - rounds <= i32::MAX
            },
        ensures
            match old(self).ammo {
                Some(a) => final(self)@ == (WeaponView { ammo: Some(spec_remove_rounds(a, rounds).0), ..old(self)@ })
                    && r == spec_remove_rounds(a, rounds).1,
                None => final(self)@ == old(self)@ && r == Err::<WeaponOk, WeaponError>(WeaponError::DoesntUseAmmo),
            },
    {
        match &mut self.ammo {
            Some(a) => a.remove_rounds(rounds),
            None => Err(WeaponError::DoesntUseAmmo),
        }
    }

    /// The damage at a distance, as the language writes dice.
    pub fn damage_dice(&self, lang: LocaleLang, distance: Option<i32>) -> (r: String)
        requires
            self.range_dmgs.len() > 0,
        ensures
            r@ == spec_localised_dice(spec_damage_at(self@.range_dmgs, distance), lang),
    {
        let ghost rds = self@.range_dmgs;
        let mut idx: usize = 0;
        match distance {
            Some(m) => {
                let mut i: usize = self.range_dmgs.len();
                let mut found = false;
                assert(rds.take(i as int) =~= rds);
                while i > 0 && !found
                    invariant
                        i <= self.range_dmgs@.len(),
                        rds == spec_range_damage_views(self.range_dmgs@),
                        found ==> i < rds.len() && spec_last_within(rds, m as int) == Some(i as int),
                        !found ==> spec_last_within(rds, m as int) == spec_last_within(rds.take(i as int), m as int),
                    decreases i + (if found { 0int } else { 1int }),
                {
                    let reach: i32 = match self.range_dmgs[i - 1].range {
                        Some(r) => r,
                        None => i32::MAX,
                    };
                    assert(rds.take(i as int).drop_last() =~= rds.take(i as int - 1));
                    assert(rds.take(i as int).last() == rds[i - 1]);
                    if reach <= m {
                        found = true;
                        i = i - 1;
                    } else {
                        i = i - 1;
                    }
                }
                if found {
                    idx = i;
                } else {
                    assert(rds.take(0) =~= Seq::<(Option<i32>, Seq<char>)>::empty());
                }
            },
            None => {},
        }
        localised_dice(self.range_dmgs[idx].damage.as_str(), lang)
    }

    /// The damage with no distance given, as the language writes dice.
    pub fn damage(&self, lang: LocaleLang) -> (r: String)
        requires
            self.range_dmgs.len() > 0,
        ensures
            r@ == spec_localised_dice(self@.range_dmgs[0].1, lang),
    {
        self.damage_dice(lang, None)
    }

    /// Halves the damage modifier of the weapon.
    pub fn apply_half_dm(&mut self)
        ensures
            final(self)@ == (WeaponView { half_damage_modifier: true, ..old(self)@ }),
    {
        self.half_damage_modifier = true;
    }

    /// Reloads the clip from loose rounds.
    pub fn reload(&mut self) -> (r: Result<WeaponOk, WeaponError>)
        requires
            old(self).ammo matches Some(a) ==> spec_reload_fits(a),
        ensures
            match old(self).ammo {
                Some(a) => final(self)@ == (WeaponView { ammo: Some(spec_reload(a).0), ..old(self)@ })
                    && r == spec_reload(a).1,
                None => final(self)@ == old(self)@ && r == Err::<WeaponOk, WeaponError>(WeaponError::DoesntUseAmmo),
            },
    {
        match &mut self.ammo {
            Some(a) => a.reload(),
            None => Err(WeaponError::DoesntUseAmmo),
        }
    }
}

/// A reload moves rounds into the clip and keeps the number of rounds.
pub proof fn lemma_reload_keeps_rounds(a: Ammo)
    requires
        spec_reload_fits(a),
    ensures
        spec_reload(a).0.clip_rounds + spec_reload(a).0.loose_rounds == a.clip_rounds + a.loose_rounds,
        spec_reload(a).0.clip_size == a.clip_size,
        spec_reload(a).1 matches Ok(WeaponOk::Loaded(n)) ==> spec_reload(a).0.clip_rounds == a.clip_rounds + n,
        spec_reload(a).1 is Err ==> spec_reload(a).0 == a,
{
}

/// A removal that succeeds takes exactly the rounds asked for, loose ones first.
pub proof fn lemma_remove_rounds_takes_exactly(a: Ammo, n: i32)
    requires
        i32::MIN <= a.loose_rounds + a.clip_rounds <= i32::MAX,
        a.loose_rounds - n <= i32::MAX,
    ensures
        spec_remove_rounds(a, n).1 is Ok ==> spec_remove_rounds(a, n).0.clip_rounds + spec_remove_rounds(a, n).0.loose_rounds
            == a.clip_rounds + a.loose_rounds - n,
        spec_remove_rounds(a, n).1 is Err <==> n > a.loose_rounds + a.clip_rounds,
{
}

/// Shooting takes rounds from the clip only, and never more than it holds.
pub proof fn lemma_shoot_takes_from_clip(a: Ammo, n: i32)
    requires
        a.clip_rounds - n <= i32::MAX,
    ensures
        spec_shoot(a, n).0.loose_rounds == a.loose_rounds,
        spec_shoot(a, n).1 is Ok ==> spec_shoot(a, n).0.clip_rounds == a.clip_rounds - n && n <= a.clip_rounds,
{
}

/// The English dice are the ones a weapon or bonus is written with; Polish
/// writes `k` for each `d`.
pub proof fn lemma_english_dice_unchanged(d: Seq<char>)
    ensures
        spec_localised_dice(d, LocaleLang::English) == d,
        spec_localised_dice(d, LocaleLang::Polski) == spec_replace(d, 'd', "k"@),
{
}

/// The range column of a weapon form, read as the weapon command reads it:
/// spaces dropped, the `k` of dice written in Polish read as `d`, then split
/// at each `/`; a form without ranges reads as `-`, any distance.
pub open spec fn spec_form_ranges(range: Option<&str>) -> Seq<Seq<char>> {
    let text = match range {
        Some(t) => t@,
        None => seq!['-'],
    };
    spec_split(spec_replace(spec_remove_spaces(text), 'k', seq!['d']), '/')
}

/// The damage column of a weapon form: spaces dropped, split at each `/`.
pub open spec fn spec_form_damages(damage: Seq<char>) -> Seq<Seq<char>> {
    spec_split(spec_remove_spaces(damage), '/')
}

/// A weapon keeps ammunition only when both the clip size and the starting
/// rounds are given.
pub open spec fn spec_form_ammo(clip_capacity: Option<i32>, start_ammunition: Option<i32>) -> Option<Ammo> {
    match (clip_capacity, start_ammunition) {
        (Some(c), Some(s)) => Some(Ammo { clip_rounds: 0, loose_rounds: s, clip_size: c }),
        _ => None,
    }
}

/// The weapon that a filled-in weapon form describes. Its ranges and damages
/// are paired place by place; forms whose two columns differ in length are
/// refused with `RangeDamageDiffers`. The half damage modifier is applied
/// only when asked for.
pub fn weapon_from_form(
    name: &str,
    damage: &str,
    attacks: &str,
    range: Option<&str>,
    malfunction: Option<i32>,
    apply_damage_modifier: bool,
    half_damage_modifier: Option<bool>,
    impaling: bool,
    clip_capacity: Option<i32>,
    start_ammunition: Option<i32>,
    skill: &str,
) -> (r: Result<Weapon, RangeDamageError>)
    requires
        spec_form_ranges(range).len() == spec_form_damages(damage@).len() ==> spec_attacks_from(attacks@) is Some,
    ensures
        spec_form_ranges(range).len() != spec_form_damages(damage@).len()
            ==> r == Err::<Weapon, RangeDamageError>(RangeDamageError::RangeDamageDiffers),
        spec_form_ranges(range).len() == spec_form_damages(damage@).len() ==> (r matches Ok(w) && w@ == (WeaponView {
            name: name@,
            range_dmgs: Seq::new(
                spec_form_ranges(range).len(),
                |i: int| (spec_parse_i32(spec_form_ranges(range)[i]), spec_form_damages(damage@)[i]),
            ),
            attacks: spec_attacks_from(attacks@)->0,
            attacks_query: attacks@,
            apply_damage_modifier,
            half_damage_modifier: half_damage_modifier == Some(true),
            impaling,
            skill: skill@,
            malfunction,
            ammo: spec_form_ammo(clip_capacity, start_ammunition),
            default: false,
        })),
{
    let range_text: &str = match range {
        Some(t) => t,
        None => "-",
    };
    proof {
        reveal_strlit("-");
        reveal_strlit("d");
        assert("-"@ =~= seq!['-']);
        assert("d"@ =~= seq!['d']);
    }
    let no_spaces = remove_spaces(range_text);
    let dice = replace_char(no_spaces.as_str(), 'k', "d");
    let ranges = split_char(dice.as_str(), '/');
    let damage_text = remove_spaces(damage);
    let damages = split_char(damage_text.as_str(), '/');
    proof {
        assert(dice@ == spec_replace(spec_remove_spaces(range_text@), 'k', seq!['d']));
        assert(ranges@.map_values(|p: String| p@) == spec_form_ranges(range));
        assert(ranges@.len() == spec_form_ranges(range).len());
        assert(damages@.len() == spec_form_damages(damage@).len());
    }
    let ghost rv = ranges@;
    let ghost dv = damages@;
    let range_dmgs = match RangeDamage::from(ranges, damages) {
        Ok(v) => v,
        Err(e) => {
            return Err(e);
        },
    };
    assert(spec_range_damage_views(range_dmgs@) =~= Seq::new(
        spec_form_ranges(range).len(),
        |i: int| (spec_parse_i32(spec_form_ranges(range)[i]), spec_form_damages(damage@)[i]),
    )) by {
        assert forall|i: int| 0 <= i < rv.len() implies rv[i]@ == spec_form_ranges(range)[i]
            && dv[i]@ == spec_form_damages(damage@)[i] by {
            assert(rv.map_values(|p: String| p@)[i] == rv[i]@);
            assert(dv.map_values(|p: String| p@)[i] == dv[i]@);
        }
    }
    let ammo = match (clip_capacity, start_ammunition) {
        (Some(clip_size), Some(rounds)) => Some(Ammo::new(clip_size, rounds)),
        _ => None,
    };
    let mut weapon = Weapon::new(
        name,
        range_dmgs,
        attacks,
        apply_damage_modifier,
        impaling,
        skill,
        malfunction,
        ammo,
    );
    let half = match half_damage_modifier {
        Some(b) => b,
        None => false,
    };
    if half {
        weapon.apply_half_dm();
    }
    Ok(weapon)
}

} // verus!
