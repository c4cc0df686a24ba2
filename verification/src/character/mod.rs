//! A character sheet: characteristics, skills, weapons, items and the
//! derived values that the rules compute from them.
pub mod attributes;
pub mod item;
pub mod skill;
pub mod stats;
pub mod talents;
pub mod weapon;

use crate::character::attributes::{spec_attribute_index, spec_build, spec_hp, spec_move_rate, Attributes};
use crate::character::item::{Item, ItemView};
use crate::character::skill::SkillError;
use crate::character::weapon::{
    localised_dice, spec_localised_dice, Attack, AttacksModifier, RangeDamage, Weapon, WeaponView,
};
use crate::character::skill::{
    default_constant_skill_table, default_skill_table, default_unimprovable_skill_table, spec_default_constant_skill_table,
    spec_default_skill_table, spec_default_unimprovable_skill_table, spec_skill, Skill, SkillView,
};
use crate::locale::{
    locale_entry_by_tag, locale_entry_opt, locale_tag_by_str, spec_entry_equals, spec_locale_entry, spec_tag_by_str, LocaleEntry,
    LocaleLang, LocaleTag,
};
use crate::roller::success_level::{div_trunc, spec_div_trunc};
use crate::text::{push_int, spec_contains_ignore_case, spec_int_str};
use crate::utils::{lemma_first_index, lemma_first_index_at, lemma_first_index_full, lemma_first_index_step, spec_first_index};
use vstd::prelude::*;

verus! {

/// A value that play changes (hit points, sanity, luck, magic): where it
/// is now, where it stood at the start of the session, where it started
/// and its maximum.
#[derive(Debug, Clone, Copy, PartialEq, Eq, Structural)]
pub struct CharacterVariable {
    pub current: i32,
    pub initial: i32,
    pub start: i32,
    pub max: i32,
}

impl Default for CharacterVariable {
    /// All four values 0.
    fn default() -> (r: Self)
        ensures
            r == (CharacterVariable { current: 0, initial: 0, start: 0, max: 0 }),
    {
        CharacterVariable { current: 0, initial: 0, start: 0, max: 0 }
    }
}

/// `v` brought into `lo..=hi`.
pub open spec fn spec_clamp(v: int, lo: int, hi: int) -> int {
    if v < lo { lo } else if v > hi { hi } else { v }
}

impl CharacterVariable {
    pub fn new(start: i32, max: i32) -> (r: Self)
        ensures
            r == (CharacterVariable { current: start, initial: start, start, max }),
    {
        CharacterVariable { current: start, initial: start, start, max }
    }

    /// A value whose maximum is where it starts.
    pub fn new_clamped(start: i32) -> (r: Self)
        ensures
            r == (CharacterVariable { current: start, initial: start, start, max: start }),
    {
        CharacterVariable { current: start, initial: start, start, max: start }
    }

    /// Adds `delta`, keeping the value between zero and the maximum.
    pub fn modify(&mut self, delta: i32)
        requires
            old(self).max >= 0,
            i32::MIN <= old(self).current + delta <= i32::MAX,
        ensures
            *final(self) == (CharacterVariable {
                current: spec_clamp(old(self).current + delta, 0, old(self).max as int) as i32,
                ..*old(self)
            }),
    {
        let v = self.current + delta;
        self.current = if v < 0 { 0 } else if v > self.max { self.max } else { v };
    }

    /// Makes the current value the one of the start of the session.
    pub fn update_initial(&mut self)
        ensures
            *final(self) == (CharacterVariable { initial: old(self).current, ..*old(self) }),
    {
        self.initial = self.current;
    }

    /// Back to where the value started.
    pub fn reset(&mut self)
        ensures
            *final(self) == (CharacterVariable { current: old(self).start, initial: old(self).start, ..*old(self) }),
    {
        self.current = self.start;
        self.initial = self.start;
    }
}

/// The views of a list of skills.
pub open spec fn spec_skill_views(s: Seq<Skill>) -> Seq<SkillView> {
    s.map_values(|k: Skill| k@)
}

/// How a skill is looked for by a text.
#[derive(Debug, Clone, Copy, PartialEq, Eq, Structural)]
pub enum SkillMatch {
    /// Its English name is the text: the key of the skill map.
    Key,
    /// Either name equals the text up to ASCII case.
    Name,
    /// Either name contains the text up to ASCII case.
    Partial,
    /// A skill that the player added, named by the text up to ASCII case.
    CustomName,
}

/// Whether a skill matches a text.
pub open spec fn spec_skill_matches(how: SkillMatch, text: Seq<char>) -> spec_fn(SkillView) -> bool {
    |v: SkillView| match how {
        SkillMatch::Key => v.name.0 == text,
        SkillMatch::Name => spec_entry_equals(v.name, text),
        SkillMatch::Partial => spec_contains_ignore_case(v.name.1, text) || spec_contains_ignore_case(v.name.0, text),
        SkillMatch::CustomName => spec_entry_equals(v.name, text) && !v.default,
    }
}

/// The first skill of the list that matches a text.
pub open spec fn spec_find_skill(s: Seq<SkillView>, how: SkillMatch, text: Seq<char>) -> Option<int> {
    spec_first_index(s, spec_skill_matches(how, text))
}

fn skill_matches(skill: &Skill, how: SkillMatch, text: &str) -> (r: bool)
    ensures
        r == spec_skill_matches(how, text@)(skill@),
{
    match how {
        SkillMatch::Key => crate::text::str_equal(skill.name.en.as_str(), text),
        SkillMatch::Name => skill.name.equals_ignore_case(text),
        SkillMatch::Partial => skill.name.partial_match_ignore_case(text),
        SkillMatch::CustomName => skill.name.equals_ignore_case(text) && !skill.default,
    }
}

/// The position of the first skill that matches a text.
pub fn find_skill(skills: &Vec<Skill>, how: SkillMatch, text: &str) -> (r: Option<usize>)
    ensures
        match r {
            Some(i) => spec_find_skill(spec_skill_views(skills@), how, text@) == Some(i as int),
            None => spec_find_skill(spec_skill_views(skills@), how, text@) is None,
        },
{
    let ghost v = spec_skill_views(skills@);
    let ghost p = spec_skill_matches(how, text@);
    let mut i: usize = 0;
    assert(v.take(0) =~= Seq::<SkillView>::empty());
    while i < skills.len()
        invariant
            v == spec_skill_views(skills@),
            p == spec_skill_matches(how, text@),
            i <= skills@.len(),
            spec_first_index(v.take(i as int), p) is None,
        decreases skills@.len() - i,
    {
        proof { lemma_first_index_step(v, p, i as int); }
        if skill_matches(&skills[i], how, text) {
            proof {
                lemma_first_index(v.take(i as int), p);
                assert forall|j: int| 0 <= j < i implies !p(#[trigger] v[j]) by {
                    assert(v.take(i as int)[j] == v[j]);
                }
                lemma_first_index_at(v, p, i as int);
            }
            return Some(i);
        }
        i += 1;
    }
    proof { lemma_first_index_full(v, p); }
    None
}

/// The skill map after putting a skill under its English name: it takes
/// the place of the skill of that name, or comes last.
pub open spec fn spec_map_insert(m: Seq<SkillView>, s: SkillView) -> Seq<SkillView> {
    match spec_find_skill(m, SkillMatch::Key, s.name.0) {
        Some(i) => m.update(i, s),
        None => m.push(s),
    }
}

/// The skill map after putting each skill in turn.
pub open spec fn spec_insert_all(m: Seq<SkillView>, s: Seq<SkillView>) -> Seq<SkillView>
    decreases s.len(),
{
    if s.len() == 0 {
        m
    } else {
        spec_map_insert(spec_insert_all(m, s.drop_last()), s.last())
    }
}

/// Puts a skill under its English name.
pub fn skill_map_insert(m: &mut Vec<Skill>, s: Skill)
    ensures
        spec_skill_views(final(m)@) == spec_map_insert(spec_skill_views(old(m)@), s@),
{
    let ghost before = spec_skill_views(m@);
    match find_skill(m, SkillMatch::Key, s.name.en.as_str()) {
        Some(i) => {
            let ghost sv = s@;
            proof { lemma_first_index(before, spec_skill_matches(SkillMatch::Key, sv.name.0)); }
            m.set(i, s);
            assert(spec_skill_views(m@) =~= before.update(i as int, sv));
        },
        None => {
            let ghost sv = s@;
            m.push(s);
            assert(spec_skill_views(m@) =~= before.push(sv));
        },
    }
}

/// The base value of a skill of every sheet: language (own) is education,
/// dodge is half of dexterity.
pub open spec fn spec_base_value(tag: LocaleTag, value: i32, edu: i32, dex: i32) -> i32 {
    if tag == LocaleTag::LanguageOwn {
        edu
    } else if tag == LocaleTag::Dodge {
        spec_div_trunc(dex as int, 2) as i32
    } else {
        value
    }
}

/// The skills of a table whose tags the locale table names, in order.
pub open spec fn spec_table_skills(
    table: Seq<(LocaleTag, i32)>,
    improvable: bool,
    constant: bool,
    from_characteristics: bool,
    edu: i32,
    dex: i32,
) -> Seq<SkillView>
    decreases table.len(),
{
    if table.len() == 0 {
        Seq::<SkillView>::empty()
    } else {
        let prev = spec_table_skills(table.drop_last(), improvable, constant, from_characteristics, edu, dex);
        let (tag, v) = table.last();
        let value = if from_characteristics { spec_base_value(tag, v, edu, dex) } else { v };
        match spec_locale_entry(tag) {
            Some(e) => prev.push(spec_skill(e, value, improvable, true, constant)),
            None => prev,
        }
    }
}

/// The skill map of a new sheet: the skills that improve, then those that
/// do not, then the constant ones, each put under its English name.
pub open spec fn spec_default_skills(edu: i32, dex: i32) -> Seq<SkillView> {
    let improving = spec_table_skills(spec_default_skill_table(), true, false, true, edu, dex);
    let unimprovable = spec_table_skills(spec_default_unimprovable_skill_table(), false, false, false, edu, dex);
    let constant = spec_table_skills(spec_default_constant_skill_table(), false, true, false, edu, dex);
    spec_insert_all(spec_insert_all(spec_insert_all(Seq::empty(), improving), unimprovable), constant)
}

/// A skill of every sheet that improves with use, with its key.
pub fn skill_map_wrapper(tag: LocaleTag, val: i32) -> (r: (String, Skill))
    requires
        spec_locale_entry(tag) is Some,
    ensures
        r.0@ == (spec_locale_entry(tag)->0).0,
        r.1@ == spec_skill(spec_locale_entry(tag)->0, val, true, true, false),
{
    (locale_entry_by_tag(tag).en, Skill::new_default(locale_entry_by_tag(tag), val))
}

fn skill_unimprovable_map_wrapper(tag: LocaleTag, val: i32) -> (r: (String, Skill))
    requires
        spec_locale_entry(tag) is Some,
    ensures
        r.0@ == (spec_locale_entry(tag)->0).0,
        r.1@ == spec_skill(spec_locale_entry(tag)->0, val, false, true, false),
{
    (locale_entry_by_tag(tag).en, Skill::new_default_unimprovable(locale_entry_by_tag(tag), val))
}

fn skill_constant_map_wrapper(tag: LocaleTag, val: i32) -> (r: (String, Skill))
    requires
        spec_locale_entry(tag) is Some,
    ensures
        r.0@ == (spec_locale_entry(tag)->0).0,
        r.1@ == spec_skill(spec_locale_entry(tag)->0, val, false, true, true),
{
    (locale_entry_by_tag(tag).en, Skill::new_default_constant(locale_entry_by_tag(tag), val))
}

/// Puts the skills of a table into the map.
fn insert_table(
    m: &mut Vec<Skill>,
    table: &Vec<(LocaleTag, i32)>,
    improvable: bool,
    constant: bool,
    from_characteristics: bool,
    edu: i32,
    dex: i32,
)
    requires
        !(improvable && constant),
    ensures
        spec_skill_views(final(m)@) == spec_insert_all(
            spec_skill_views(old(m)@),
            spec_table_skills(table@, improvable, constant, from_characteristics, edu, dex),
        ),
{
    let ghost base = spec_skill_views(m@);
    let mut i: usize = 0;
    assert(table@.take(0) =~= Seq::<(LocaleTag, i32)>::empty());
    while i < table.len()
        invariant
            !(improvable && constant),
            i <= table@.len(),
            spec_skill_views(m@) == spec_insert_all(base, spec_table_skills(table@.take(i as int), improvable, constant, from_characteristics, edu, dex)),
        decreases table@.len() - i,
    {
        let (tag, v) = table[i];
        let value = if from_characteristics {
            if tag == LocaleTag::LanguageOwn {
                edu
            } else if tag == LocaleTag::Dodge {
                div_trunc(dex, 2)
            } else {
                v
            }
        } else {
            v
        };
        let ghost prev = spec_table_skills(table@.take(i as int), improvable, constant, from_characteristics, edu, dex);
        assert(table@.take(i as int + 1).drop_last() =~= table@.take(i as int));
        assert(table@.take(i as int + 1).last() == table@[i as int]);
        if locale_entry_opt(tag).is_some() {
            let (_key, skill) = if improvable {
                skill_map_wrapper(tag, value)
            } else if constant {
                skill_constant_map_wrapper(tag, value)
            } else {
                skill_unimprovable_map_wrapper(tag, value)
            };
            let ghost sv = skill@;
            skill_map_insert(m, skill);
            assert(prev.push(sv).drop_last() =~= prev);
        }
        i += 1;
    }
    assert(table@.take(table@.len() as int) =~= table@);
}

/// The skill map of a new sheet with the given characteristics.
pub fn default_skills(attributes: &Attributes) -> (r: Vec<Skill>)
    ensures
        spec_skill_views(r@) == spec_default_skills(attributes.education.value, attributes.dexterity.value),
{
    let education = attributes.education.value;
    let dexterity = attributes.dexterity.value;
    let mut m: Vec<Skill> = Vec::new();
    assert(spec_skill_views(m@) =~= Seq::<SkillView>::empty());
    insert_table(&mut m, &default_skill_table(), true, false, true, education, dexterity);
    insert_table(&mut m, &default_unimprovable_skill_table(), false, false, false, education, dexterity);
    insert_table(&mut m, &default_constant_skill_table(), false, true, false, education, dexterity);
    m
}

/// A character sheet.
#[derive(Debug)]
pub struct Character {
    pub name: String,
    pub attributes: Attributes,
    pub build: i32,
    pub move_rate: i32,
    pub hp: CharacterVariable,
    pub major_wound: bool,
    pub dead: bool,
    pub sanity: CharacterVariable,
    pub fragile_mind: bool,
    pub insane: bool,
    pub luck: CharacterVariable,
    pub magic: CharacterVariable,
    pub skills: Vec<Skill>,
    pub weapons: Vec<Weapon>,
    pub items: Vec<Item>,
    pub pulp_archetype: Option<LocaleEntry>,
    pub pulp_talents: Vec<LocaleEntry>,
}

pub struct CharacterView {
    pub name: Seq<char>,
    pub attributes: Seq<((Seq<char>, Seq<char>), i32)>,
    pub build: i32,
    pub move_rate: i32,
    pub hp: CharacterVariable,
    pub major_wound: bool,
    pub dead: bool,
    pub sanity: CharacterVariable,
    pub fragile_mind: bool,
    pub insane: bool,
    pub luck: CharacterVariable,
    pub magic: CharacterVariable,
    pub skills: Seq<SkillView>,
    pub weapons: Seq<WeaponView>,
    pub items: Seq<ItemView>,
    pub pulp_archetype: Option<(Seq<char>, Seq<char>)>,
    pub pulp_talents: Seq<(Seq<char>, Seq<char>)>,
}

pub open spec fn spec_opt_entry(o: Option<LocaleEntry>) -> Option<(Seq<char>, Seq<char>)> {
    match o {
        Some(e) => Some(e@),
        None => None,
    }
}

impl View for Character {
    type V = CharacterView;

    open spec fn view(&self) -> CharacterView {
        CharacterView {
            name: self.name@,
            attributes: self.attributes@,
            build: self.build,
            move_rate: self.move_rate,
            hp: self.hp,
            major_wound: self.major_wound,
            dead: self.dead,
            sanity: self.sanity,
            fragile_mind: self.fragile_mind,
            insane: self.insane,
            luck: self.luck,
            magic: self.magic,
            skills: spec_skill_views(self.skills@),
            weapons: self.weapons@.map_values(|w: Weapon| w@),
            items: self.items@.map_values(|i: Item| i@),
            pulp_archetype: spec_opt_entry(self.pulp_archetype),
            pulp_talents: self.pulp_talents@.map_values(|e: LocaleEntry| e@),
        }
    }
}

impl Default for Character {
    /// A sheet with no name, characteristics with no name at 0, every
    /// number 0, every flag off, and no skills, weapons, items, archetype
    /// or talents.
    fn default() -> (r: Self)
        ensures
            r@ == (CharacterView {
                name: Seq::<char>::empty(),
                attributes: Seq::new(8, |i: int| ((Seq::<char>::empty(), Seq::<char>::empty()), 0i32)),
                build: 0,
                move_rate: 0,
                hp: CharacterVariable { current: 0, initial: 0, start: 0, max: 0 },
                major_wound: false,
                dead: false,
                sanity: CharacterVariable { current: 0, initial: 0, start: 0, max: 0 },
                fragile_mind: false,
                insane: false,
                luck: CharacterVariable { current: 0, initial: 0, start: 0, max: 0 },
                magic: CharacterVariable { current: 0, initial: 0, start: 0, max: 0 },
                skills: Seq::<SkillView>::empty(),
                weapons: Seq::<WeaponView>::empty(),
                items: Seq::<ItemView>::empty(),
                pulp_archetype: None,
                pulp_talents: Seq::<(Seq<char>, Seq<char>)>::empty(),
            }),
    {
        let r = Character {
            name: String::new(),
            attributes: Attributes::default(),
            build: 0,
            move_rate: 0,
            hp: CharacterVariable::default(),
            major_wound: false,
            dead: false,
            sanity: CharacterVariable::default(),
            fragile_mind: false,
            insane: false,
            luck: CharacterVariable::default(),
            magic: CharacterVariable::default(),
            skills: Vec::new(),
            weapons: Vec::new(),
            items: Vec::new(),
            pulp_archetype: None,
            pulp_talents: Vec::new(),
        };
        assert(r@.skills =~= Seq::<SkillView>::empty());
        assert(r@.weapons =~= Seq::<WeaponView>::empty());
        assert(r@.items =~= Seq::<ItemView>::empty());
        assert(r@.pulp_talents =~= Seq::<(Seq<char>, Seq<char>)>::empty());
        r
    }
}

/// The bare hands that every new sheet fights with.
pub open spec fn spec_fist_weapon() -> WeaponView {
    WeaponView {
        name: "🙌"@,
        range_dmgs: seq![(None, "1d3"@)],
        attacks: seq![Attack { count: 1, modifier: AttacksModifier::NoPenalty }],
        attacks_query: "1"@,
        apply_damage_modifier: true,
        half_damage_modifier: false,
        impaling: false,
        skill: (spec_locale_entry(LocaleTag::FightingBrawl)->0).0,
        malfunction: None,
        ammo: None,
        default: true,
    }
}

/// The sums of characteristics that build and hit points add fit an `i32`.
pub open spec fn spec_sums_fit(a: Seq<((Seq<char>, Seq<char>), i32)>) -> bool {
    &&& i32::MIN + 204 <= a[0].1 + a[2].1 <= i32::MAX
    &&& i32::MIN <= a[1].1 + a[2].1 <= i32::MAX
}

/// A new sheet.
pub open spec fn spec_new_character(
    name: Seq<char>,
    a: Seq<((Seq<char>, Seq<char>), i32)>,
    luck: i32,
    pulp_archetype: Option<(Seq<char>, Seq<char>)>,
) -> CharacterView {
    let hp = spec_hp(a[1].1 as int, a[2].1 as int, pulp_archetype is Some) as i32;
    let magic = spec_div_trunc(a[6].1 as int, 5) as i32;
    CharacterView {
        name,
        attributes: a,
        build: spec_build(a[0].1 + a[2].1) as i32,
        move_rate: spec_move_rate(a[0].1 as int, a[3].1 as int, a[2].1 as int) as i32,
        hp: CharacterVariable { current: hp, initial: hp, start: hp, max: hp },
        major_wound: false,
        dead: false,
        sanity: CharacterVariable { current: a[6].1, initial: a[6].1, start: a[6].1, max: 99 },
        fragile_mind: false,
        insane: false,
        luck: CharacterVariable { current: luck, initial: luck, start: luck, max: 99 },
        magic: CharacterVariable { current: magic, initial: magic, start: magic, max: magic },
        skills: spec_default_skills(a[7].1, a[3].1),
        weapons: seq![spec_fist_weapon()],
        items: Seq::empty(),
        pulp_archetype,
        pulp_talents: Seq::empty(),
    }
}

/// The characteristics after setting the value of the first one named `name`.
pub open spec fn spec_attributes_set(a: Seq<((Seq<char>, Seq<char>), i32)>, name: Seq<char>, value: i32) -> Seq<((Seq<char>, Seq<char>), i32)> {
    match spec_attribute_index(a, name) {
        Some(i) => a.update(i, (a[i].0, value)),
        None => a,
    }
}

/// A sheet after setting a characteristic: build, movement and hit points
/// are computed anew where the characteristic they come from was named;
/// naming power sets build to the magic points that power gives.
pub open spec fn spec_set_attribute(c: CharacterView, name: Seq<char>, value: i32) -> CharacterView {
    let a = spec_attributes_set(c.attributes, name, value);
    let named = |k: int| spec_entry_equals(a[k].0, name);
    let build = spec_build(a[0].1 + a[2].1) as i32;
    let move_rate = spec_move_rate(a[0].1 as int, a[3].1 as int, a[2].1 as int) as i32;
    let hp_max = spec_hp(a[1].1 as int, a[2].1 as int, c.pulp_archetype is Some) as i32;
    CharacterView {
        attributes: a,
        build: if named(6) {
            spec_div_trunc(a[6].1 as int, 5) as i32
        } else if named(0) || named(2) {
            build
        } else {
            c.build
        },
        move_rate: if named(0) || named(2) || named(3) { move_rate } else { c.move_rate },
        hp: CharacterVariable { max: if named(1) || named(2) { hp_max } else { c.hp.max }, ..c.hp },
        ..c
    }
}

/// Setting the characteristic keeps the sums that it recomputes within `i32`.
pub open spec fn spec_set_attribute_fits(c: CharacterView, name: Seq<char>, value: i32) -> bool {
    let a = spec_attributes_set(c.attributes, name, value);
    &&& (spec_entry_equals(a[0].0, name) || spec_entry_equals(a[2].0, name)) ==> i32::MIN + 204 <= a[0].1 + a[2].1 <= i32::MAX
    &&& (spec_entry_equals(a[1].0, name) || spec_entry_equals(a[2].0, name)) ==> i32::MIN <= a[1].1 + a[2].1 <= i32::MAX
}

/// The skill that a name gives when it is added: the table entry of the
/// first tag named so, else the name in both languages.
pub open spec fn spec_added_skill_name(name: Seq<char>) -> (Seq<char>, Seq<char>) {
    match spec_tag_by_str(name) {
        Some(t) => spec_locale_entry(t)->0,
        None => (name, name),
    }
}

impl Character {
    /// A new sheet: derived values from the characteristics, the skills of
    /// every sheet, and bare hands to fight with.
    pub fn new(name: &str, attributes: Attributes, luck: i32, pulp_archetype: Option<LocaleEntry>) -> (r: Self)
        requires
            spec_sums_fit(attributes@),
        ensures
            r@ == spec_new_character(name@, attributes@, luck, spec_opt_entry(pulp_archetype)),
    {
        let skills = default_skills(&attributes);
        let magic = CharacterVariable::new_clamped(div_trunc(attributes.power.value, 5));
        let move_rate = attributes.calculate_move_rate();
        let hp = CharacterVariable::new_clamped(attributes.calculate_hp(pulp_archetype.is_some()));
        let luck = CharacterVariable::new(luck, 99);
        let sanity = CharacterVariable::new(attributes.calculate_sanity(), 99);
        let build = attributes.calculate_build();
        let fist = Weapon {
            name: String::from_str("🙌"),
            range_dmgs: vec![RangeDamage { range: None, damage: String::from_str("1d3") }],
            attacks_query: String::from_str("1"),
            attacks: vec![Attack::new(1, AttacksModifier::NoPenalty)],
            apply_damage_modifier: true,
            half_damage_modifier: false,
            impaling: false,
            skill: locale_entry_by_tag(LocaleTag::FightingBrawl).en,
            malfunction: None,
            ammo: None,
            default: true,
        };
        assert(fist@.range_dmgs =~= seq![(None::<i32>, "1d3"@)]);
        assert(fist@.attacks =~= seq![Attack { count: 1, modifier: AttacksModifier::NoPenalty }]);
        let weapons = vec![fist];
        let items: Vec<Item> = Vec::new();
        let pulp_talents: Vec<LocaleEntry> = Vec::new();
        let r = Character {
            name: String::from_str(name),
            magic,
            skills,
            move_rate,
            hp,
            luck,
            sanity,
            build,
            attributes,
            dead: false,
            major_wound: false,
            fragile_mind: false,
            insane: false,
            items,
            weapons,
            pulp_archetype,
            pulp_talents,
        };
        assert(r@.weapons =~= seq![spec_fist_weapon()]);
        assert(r@.items =~= Seq::<ItemView>::empty());
        assert(r@.pulp_talents =~= Seq::<(Seq<char>, Seq<char>)>::empty());
        r
    }

    /// Sets the value of the first characteristic named `name`, and the
    /// values derived from it.
    pub fn set_attribute(&mut self, name: &str, value: i32)
        requires
            spec_set_attribute_fits(old(self)@, name@, value),
        ensures
            final(self)@ == spec_set_attribute(old(self)@, name@, value),
    {
        match self.attributes.get_mut(name) {
            Some(entry) => {
                entry.value = value;
            },
            None => {},
        }
        if self.attributes.strength.name.equals_ignore_case(name) {
            self.build = self.attributes.calculate_build();
            self.move_rate = self.attributes.calculate_move_rate();
        }
        if self.attributes.constitution.name.equals_ignore_case(name) {
            self.hp.max = self.attributes.calculate_hp(self.pulp_archetype.is_some());
        }
        if self.attributes.size.name.equals_ignore_case(name) {
            self.build = self.attributes.calculate_build();
            self.move_rate = self.attributes.calculate_move_rate();
            self.hp.max = self.attributes.calculate_hp(self.pulp_archetype.is_some());
        }
        if self.attributes.dexterity.name.equals_ignore_case(name) {
            self.move_rate = self.attributes.calculate_move_rate();
        }
        if self.attributes.power.name.equals_ignore_case(name) {
            self.build = self.attributes.calculate_magic();
        }
    }
}

/// A comment on hit points: dead, else a major wound, else nothing.
pub open spec fn spec_hp_comment(c: CharacterView) -> Seq<char> {
    if c.dead { " 💀"@ } else if c.major_wound { " 🤕"@ } else { Seq::<char>::empty() }
}

/// A comment on sanity: insane, else a fragile mind, else nothing.
pub open spec fn spec_sanity_comment(c: CharacterView) -> Seq<char> {
    if c.insane { " 🤯"@ } else if c.fragile_mind { " 😨"@ } else { Seq::<char>::empty() }
}

pub open spec fn spec_status_hp(c: CharacterView) -> Seq<char> {
    "❤️ **"@ + spec_int_str(c.hp.current as int) + "**/"@ + spec_int_str(c.hp.max as int) + spec_hp_comment(c)
}

pub open spec fn spec_status_hp_raw(c: CharacterView) -> Seq<char> {
    spec_int_str(c.hp.current as int) + "/"@ + spec_int_str(c.hp.max as int) + spec_hp_comment(c)
}

pub open spec fn spec_status_sanity(c: CharacterView) -> Seq<char> {
    "🧠 **"@ + spec_int_str(c.sanity.current as int) + "**"@ + spec_sanity_comment(c)
}

pub open spec fn spec_status_sanity_raw(c: CharacterView) -> Seq<char> {
    spec_int_str(c.sanity.current as int) + spec_sanity_comment(c)
}

pub open spec fn spec_status_luck(c: CharacterView) -> Seq<char> {
    "🍀 **"@ + spec_int_str(c.luck.current as int) + "**"@
}

pub open spec fn spec_status_magic(c: CharacterView) -> Seq<char> {
    "🪄 **"@ + spec_int_str(c.magic.current as int) + "**/"@ + spec_int_str(c.magic.max as int)
}

pub open spec fn spec_status_magic_raw(c: CharacterView) -> Seq<char> {
    spec_int_str(c.magic.current as int) + "/"@ + spec_int_str(c.magic.max as int)
}

/// Hit points, sanity, luck and magic, joined by `sep`.
pub open spec fn spec_status_joined(c: CharacterView, sep: Seq<char>) -> Seq<char> {
    spec_status_hp(c) + sep + spec_status_sanity(c) + sep + spec_status_luck(c) + sep + spec_status_magic(c)
}

/// The damage bonus of a build, as dice.
pub open spec fn spec_damage_bonus(build: int) -> Seq<char> {
    if build == -2 {
        "-2"@
    } else if build == -1 {
        "-1"@
    } else if build == 0 {
        "0"@
    } else if build == 1 {
        "+1d4"@
    } else {
        "+"@ + spec_int_str(build - 1) + "d6"@
    }
}

/// The skill map without the skills that the player added under `name`.
pub open spec fn spec_without_custom(s: Seq<SkillView>, name: Seq<char>) -> Seq<SkillView> {
    s.filter(|v: SkillView| v.default || !spec_entry_equals(v.name, name))
}

impl Character {
    /// The first skill whose name contains `partial_skill_name`, ignoring ASCII case.
    pub fn get_skill_partial(&self, partial_skill_name: &str) -> (r: Option<Skill>)
        ensures
            match spec_find_skill(self@.skills, SkillMatch::Partial, partial_skill_name@) {
                Some(i) => r matches Some(k) && k@ == self@.skills[i],
                None => r is None,
            },
    {
        match find_skill(&self.skills, SkillMatch::Partial, partial_skill_name) {
            Some(i) => {
                proof { lemma_first_index(self@.skills, spec_skill_matches(SkillMatch::Partial, partial_skill_name@)); }
                Some(self.skills[i].clone())
            },
            None => None,
        }
    }

    /// The first skill named `skill_name`, ignoring ASCII case.
    pub fn get_skill(&self, skill_name: &str) -> (r: Option<Skill>)
        ensures
            match spec_find_skill(self@.skills, SkillMatch::Name, skill_name@) {
                Some(i) => r matches Some(k) && k@ == self@.skills[i],
                None => r is None,
            },
    {
        match find_skill(&self.skills, SkillMatch::Name, skill_name) {
            Some(i) => {
                proof { lemma_first_index(self@.skills, spec_skill_matches(SkillMatch::Name, skill_name@)); }
                Some(self.skills[i].clone())
            },
            None => None,
        }
    }

    /// The first skill named `skill_name`, ignoring ASCII case, to be
    /// changed in place.
    pub fn get_mut_skill(&mut self, skill_name: &str) -> (r: Option<&mut Skill>)
        ensures
            match spec_find_skill(old(self)@.skills, SkillMatch::Name, skill_name@) {
                Some(i) => r matches Some(k) && (*k)@ == old(self)@.skills[i]
                    && final(self)@ == (CharacterView {
                        skills: spec_skill_views(old(self).skills@.update(i, *final(k))),
                        ..old(self)@
                    }),
                None => r is None && final(self)@ == old(self)@,
            },
    {
        match find_skill(&self.skills, SkillMatch::Name, skill_name) {
            Some(i) => {
                proof { lemma_first_index(self@.skills, spec_skill_matches(SkillMatch::Name, skill_name@)); }
                Some(&mut self.skills[i])
            },
            None => None,
        }
    }

    /// Adds a skill that the player made, named by the table entry that
    /// `name` names, else by `name` itself; refused when the map has a
    /// skill under that English name.
    pub fn add_skill(&mut self, name: &str, value: i32) -> (r: Result<(), SkillError>)
        ensures
            ({
                let e = spec_added_skill_name(name@);
                match spec_find_skill(old(self)@.skills, SkillMatch::Key, e.0) {
                    Some(_) => (r matches Err(SkillError::AlreadyExists(n)) && n@ == name@)
                        && final(self)@ == old(self)@,
                    None => r is Ok && final(self)@ == (CharacterView {
                        skills: old(self)@.skills.push(spec_skill(e, value, true, false, false)),
                        ..old(self)@
                    }),
                }
            }),
    {
        let locale_text = match locale_tag_by_str(name) {
            Some(tag) => locale_entry_by_tag(tag),
            None => LocaleEntry::new_single_lang(name),
        };
        let ghost e = locale_text@;
        let new_skill = Skill::new_custom(locale_text.clone(), value);
        match find_skill(&self.skills, SkillMatch::Key, locale_text.en.as_str()) {
            Some(_) => Err(SkillError::AlreadyExists(String::from_str(name))),
            None => {
                let ghost before = self@.skills;
                let ghost sv = new_skill@;
                self.skills.push(new_skill);
                assert(self@.skills =~= before.push(sv));
                Ok(())
            },
        }
    }

    /// Sets the value of the first skill named `name`; setting the Cthulhu
    /// Mythos skill lowers the maximum sanity to 99 less its value.
    pub fn set_skill(&mut self, name: &str, value: i32) -> (r: Result<(), SkillError>)
        requires
            99 - value <= i32::MAX,
        ensures
            match spec_find_skill(old(self)@.skills, SkillMatch::Name, name@) {
                None => (r matches Err(SkillError::NoSuchSkill(n)) && n@ == name@) && final(self)@ == old(self)@,
                Some(i) => {
                    let k = old(self)@.skills[i];
                    if k.constant {
                        (r matches Err(SkillError::Constant(n)) && n@ == k.name) && final(self)@ == old(self)@
                    } else {
                        let skills = old(self)@.skills.update(i, SkillView { value, ..k });
                        r is Ok && final(self)@ == (CharacterView {
                            skills,
                            sanity: if spec_entry_equals(k.name, "Cthulhu Mythos"@) {
                                CharacterVariable { max: (99 - value) as i32, ..old(self)@.sanity }
                            } else {
                                old(self)@.sanity
                            },
                            ..old(self)@
                        })
                    }
                },
            },
    {
        let i = match find_skill(&self.skills, SkillMatch::Name, name) {
            Some(i) => i,
            None => {
                return Err(SkillError::NoSuchSkill(String::from_str(name)));
            },
        };
        proof { lemma_first_index(self@.skills, spec_skill_matches(SkillMatch::Name, name@)); }
        let ghost before = self@.skills;
        let mythos = self.skills[i].name.equals_ignore_case("Cthulhu Mythos");
        let res = self.skills[i].set(value);
        match res {
            Ok(()) => {
                assert(self@.skills =~= before.update(i as int, SkillView { value, ..before[i as int] }));
            },
            Err(e) => {
                assert(self@.skills =~= before);
                return Err(e);
            },
        }
        if mythos {
            self.sanity.max = 99 - value;
        }
        Ok(())
    }

    /// Checks that a skill that the player added is named `skill_name`;
    /// the skills stay as they are.
    pub fn remove_skill(&mut self, skill_name: &str) -> (r: Result<(), SkillError>)
        ensures
            final(self)@ == old(self)@,
            spec_find_skill(old(self)@.skills, SkillMatch::CustomName, skill_name@) is None
                <==> (r matches Err(SkillError::CantRemove(n)) && n@ == skill_name@),
            spec_find_skill(old(self)@.skills, SkillMatch::CustomName, skill_name@) is Some <==> r is Ok,
    {
        match find_skill(&self.skills, SkillMatch::CustomName, skill_name) {
            Some(_) => Ok(()),
            None => Err(SkillError::CantRemove(String::from_str(skill_name))),
        }
    }

    /// Removes the skills that the player added under `skill_name`.
    pub fn delete_skill(&mut self, skill_name: &str)
        ensures
            final(self)@ == (CharacterView { skills: spec_without_custom(old(self)@.skills, skill_name@), ..old(self)@ }),
    {
        let ghost keep = |v: SkillView| v.default || !spec_entry_equals(v.name, skill_name@);
        let ghost views = self@.skills;
        let old_skills = &self.skills;
        let mut kept: Vec<Skill> = Vec::new();
        let mut i: usize = 0;
        proof {
            assert(views.take(0) =~= Seq::<SkillView>::empty());
            reveal(Seq::filter);
            assert(views.take(0).filter(keep) =~= Seq::<SkillView>::empty());
        }
        while i < old_skills.len()
            invariant
                views == spec_skill_views(old_skills@),
                keep == (|v: SkillView| v.default || !spec_entry_equals(v.name, skill_name@)),
                i <= old_skills@.len(),
                spec_skill_views(kept@) == views.take(i as int).filter(keep),
            decreases old_skills@.len() - i,
        {
            let k = &old_skills[i];
            let ghost prev = spec_skill_views(kept@);
            if k.default || !k.name.equals_ignore_case(skill_name) {
                let c = k.clone();
                kept.push(c);
                assert(spec_skill_views(kept@) =~= prev.push(c@));
            }
            proof {
                assert(views.take(i as int + 1) =~= views.take(i as int).push(views[i as int]));
                views.take(i as int).lemma_filter_push(views[i as int], keep);
            }
            i += 1;
        }
        assert(views.take(views.len() as int) =~= views);
        self.skills = kept;
    }

    /// Back to the values the sheet started with, and no wounds or madness.
    pub fn reset(&mut self)
        ensures
            final(self)@ == (CharacterView {
                dead: false,
                major_wound: false,
                insane: false,
                fragile_mind: false,
                hp: CharacterVariable { current: old(self).hp.start, initial: old(self).hp.start, ..old(self).hp },
                sanity: CharacterVariable { current: old(self).sanity.start, initial: old(self).sanity.start, ..old(self).sanity },
                luck: CharacterVariable { current: old(self).luck.start, initial: old(self).luck.start, ..old(self).luck },
                magic: CharacterVariable { current: old(self).magic.start, initial: old(self).magic.start, ..old(self).magic },
                ..old(self)@
            }),
    {
        self.dead = false;
        self.major_wound = false;
        self.insane = false;
        self.fragile_mind = false;
        self.hp.reset();
        self.sanity.reset();
        self.luck.reset();
        self.magic.reset();
    }

    /// The name in backticks.
    pub fn name(&self) -> (r: String)
        ensures
            r@ == "`"@ + self.name@ + "`"@,
    {
        let mut s = String::from_str("`");
        s.append(self.name.as_str());
        s.append("`");
        s
    }

    pub fn name_raw(&self) -> (r: String)
        ensures
            r@ == self.name@,
    {
        self.name.clone()
    }

    fn push_hp_comment(&self, s: &mut String)
        ensures
            final(s)@ == old(s)@ + spec_hp_comment(self@),
    {
        if self.dead {
            s.append(" 💀");
        } else if self.major_wound {
            s.append(" 🤕");
        }
    }

    fn push_sanity_comment(&self, s: &mut String)
        ensures
            final(s)@ == old(s)@ + spec_sanity_comment(self@),
    {
        if self.insane {
            s.append(" 🤯");
        } else if self.fragile_mind {
            s.append(" 😨");
        }
    }

    fn push_status_hp(&self, s: &mut String)
        ensures
            final(s)@ == old(s)@ + spec_status_hp(self@),
    {
        let ghost before = s@;
        s.append("❤️ **");
        push_int(s, self.hp.current as i64);
        s.append("**/");
        push_int(s, self.hp.max as i64);
        self.push_hp_comment(s);
        assert(s@ =~= before + spec_status_hp(self@));
    }

    fn push_status_sanity(&self, s: &mut String)
        ensures
            final(s)@ == old(s)@ + spec_status_sanity(self@),
    {
        let ghost before = s@;
        s.append("🧠 **");
        push_int(s, self.sanity.current as i64);
        s.append("**");
        self.push_sanity_comment(s);
        assert(s@ =~= before + spec_status_sanity(self@));
    }

    fn push_status_luck(&self, s: &mut String)
        ensures
            final(s)@ == old(s)@ + spec_status_luck(self@),
    {
        let ghost before = s@;
        s.append("🍀 **");
        push_int(s, self.luck.current as i64);
        s.append("**");
        assert(s@ =~= before + spec_status_luck(self@));
    }

    fn push_status_magic(&self, s: &mut String)
        ensures
            final(s)@ == old(s)@ + spec_status_magic(self@),
    {
        let ghost before = s@;
        s.append("🪄 **");
        push_int(s, self.magic.current as i64);
        s.append("**/");
        push_int(s, self.magic.max as i64);
        assert(s@ =~= before + spec_status_magic(self@));
    }

    fn push_status_joined(&self, s: &mut String, sep: &str)
        ensures
            final(s)@ == old(s)@ + spec_status_joined(self@, sep@),
    {
        let ghost before = s@;
        self.push_status_hp(s);
        s.append(sep);
        self.push_status_sanity(s);
        s.append(sep);
        self.push_status_luck(s);
        s.append(sep);
        self.push_status_magic(s);
        assert(s@ =~= before + spec_status_joined(self@, sep@));
    }

    pub fn status_hp(&self) -> (r: String)
        ensures
            r@ == spec_status_hp(self@),
    {
        let mut s = String::new();
        self.push_status_hp(&mut s);
        assert(s@ =~= spec_status_hp(self@));
        s
    }

    pub fn status_hp_raw(&self) -> (r: String)
        ensures
            r@ == spec_status_hp_raw(self@),
    {
        let mut s = String::new();
        push_int(&mut s, self.hp.current as i64);
        s.append("/");
        push_int(&mut s, self.hp.max as i64);
        self.push_hp_comment(&mut s);
        assert(s@ =~= spec_status_hp_raw(self@));
        s
    }

    pub fn status_sanity(&self) -> (r: String)
        ensures
            r@ == spec_status_sanity(self@),
    {
        let mut s = String::new();
        self.push_status_sanity(&mut s);
        assert(s@ =~= spec_status_sanity(self@));
        s
    }

    pub fn status_sanity_raw(&self) -> (r: String)
        ensures
            r@ == spec_status_sanity_raw(self@),
    {
        let mut s = String::new();
        push_int(&mut s, self.sanity.current as i64);
        self.push_sanity_comment(&mut s);
        assert(s@ =~= spec_status_sanity_raw(self@));
        s
    }

    pub fn status_luck(&self) -> (r: String)
        ensures
            r@ == spec_status_luck(self@),
    {
        let mut s = String::new();
        self.push_status_luck(&mut s);
        assert(s@ =~= spec_status_luck(self@));
        s
    }

    pub fn status_luck_raw(&self) -> (r: String)
        ensures
            r@ == spec_int_str(self.luck.current as int),
    {
        let mut s = String::new();
        push_int(&mut s, self.luck.current as i64);
        assert(s@ =~= spec_int_str(self.luck.current as int));
        s
    }

    pub fn status_magic(&self) -> (r: String)
        ensures
            r@ == spec_status_magic(self@),
    {
        let mut s = String::new();
        self.push_status_magic(&mut s);
        assert(s@ =~= spec_status_magic(self@));
        s
    }

    pub fn status_magic_raw(&self) -> (r: String)
        ensures
            r@ == spec_status_magic_raw(self@),
    {
        let mut s = String::new();
        push_int(&mut s, self.magic.current as i64);
        s.append("/");
        push_int(&mut s, self.magic.max as i64);
        assert(s@ =~= spec_status_magic_raw(self@));
        s
    }

    /// Hit points, sanity, luck and magic, one per line.
    pub fn status(&self) -> (r: String)
        ensures
            r@ == spec_status_joined(self@, "\n"@),
    {
        let mut s = String::new();
        self.push_status_joined(&mut s, "\n");
        assert(s@ =~= spec_status_joined(self@, "\n"@));
        s
    }

    /// Hit points, sanity, luck and magic, separated by tabs.
    pub fn status_one_line(&self) -> (r: String)
        ensures
            r@ == spec_status_joined(self@, "\t"@),
    {
        let mut s = String::new();
        self.push_status_joined(&mut s, "\t");
        assert(s@ =~= spec_status_joined(self@, "\t"@));
        s
    }

    /// The name in backticks, then the status on the following lines.
    pub fn status_named(&self) -> (r: String)
        ensures
            r@ == "`"@ + self.name@ + "`\n"@ + spec_status_joined(self@, "\n"@),
    {
        let mut s = String::from_str("`");
        s.append(self.name.as_str());
        s.append("`\n");
        let ghost before = s@;
        self.push_status_joined(&mut s, "\n");
        s
    }

    /// The damage bonus of the character's build, as the language writes dice.
    pub fn damage_modifier(&self, lang: LocaleLang) -> (r: String)
        requires
            self.build > i32::MIN,
        ensures
            r@ == spec_localised_dice(spec_damage_bonus(self.build as int), lang),
    {
        let out = Self::build_to_damage_modifier(self.build);
        localised_dice(out.as_str(), lang)
    }

    /// The damage bonus of a build: a penalty down to -2, then growing dice.
    pub fn build_to_damage_modifier(build: i32) -> (r: String)
        requires
            build > i32::MIN,
        ensures
            r@ == spec_damage_bonus(build as int),
    {
        if build == -2 {
            String::from_str("-2")
        } else if build == -1 {
            String::from_str("-1")
        } else if build == 0 {
            String::from_str("0")
        } else if build == 1 {
            String::from_str("+1d4")
        } else {
            let mut s = String::from_str("+");
            push_int(&mut s, (build - 1) as i64);
            s.append("d6");
            s
        }
    }
}

/// Changing a value never takes it below zero or above its maximum.
pub proof fn lemma_modify_stays_in_range(v: CharacterVariable, delta: i32)
    requires
        v.max >= 0,
    ensures
        0 <= spec_clamp(v.current + delta, 0, v.max as int) <= v.max,
{
}

/// No two skills of a map share an English name.
pub open spec fn spec_keys_distinct(m: Seq<SkillView>) -> bool {
    forall|i: int, j: int| 0 <= i < j < m.len() ==> (#[trigger] m[i]).name.0 != (#[trigger] m[j]).name.0
}

/// Putting a skill keeps the English names of the map distinct.
pub proof fn lemma_map_insert_keeps_keys_distinct(m: Seq<SkillView>, s: SkillView)
    requires
        spec_keys_distinct(m),
    ensures
        spec_keys_distinct(spec_map_insert(m, s)),
{
    lemma_first_index(m, spec_skill_matches(SkillMatch::Key, s.name.0));
    match spec_find_skill(m, SkillMatch::Key, s.name.0) {
        Some(k) => {
            let r = m.update(k, s);
            assert forall|i: int, j: int| 0 <= i < j < r.len() implies (#[trigger] r[i]).name.0 != (#[trigger] r[j]).name.0 by {
                if i == k {
                    assert(m[k].name.0 == s.name.0);
                } else if j == k {
                    assert(m[k].name.0 == s.name.0);
                }
            }
        },
        None => {
            let r = m.push(s);
            assert forall|i: int, j: int| 0 <= i < j < r.len() implies (#[trigger] r[i]).name.0 != (#[trigger] r[j]).name.0 by {
                if j == m.len() {
                    assert(!spec_skill_matches(SkillMatch::Key, s.name.0)(m[i]));
                }
            }
        },
    }
}

/// Putting skills one after another keeps the English names distinct.
pub proof fn lemma_insert_all_keeps_keys_distinct(m: Seq<SkillView>, s: Seq<SkillView>)
    requires
        spec_keys_distinct(m),
    ensures
        spec_keys_distinct(spec_insert_all(m, s)),
    decreases s.len(),
{
    if s.len() > 0 {
        lemma_insert_all_keeps_keys_distinct(m, s.drop_last());
        lemma_map_insert_keeps_keys_distinct(spec_insert_all(m, s.drop_last()), s.last());
    }
}

/// The skill map of a new sheet has each English name once.
pub proof fn lemma_default_skills_keys_distinct(edu: i32, dex: i32)
    ensures
        spec_keys_distinct(spec_default_skills(edu, dex)),
{
    let e = Seq::<SkillView>::empty();
    let improving = spec_table_skills(spec_default_skill_table(), true, false, true, edu, dex);
    let unimprovable = spec_table_skills(spec_default_unimprovable_skill_table(), false, false, false, edu, dex);
    let constant = spec_table_skills(spec_default_constant_skill_table(), false, true, false, edu, dex);
    lemma_insert_all_keeps_keys_distinct(e, improving);
    lemma_insert_all_keeps_keys_distinct(spec_insert_all(e, improving), unimprovable);
    lemma_insert_all_keeps_keys_distinct(spec_insert_all(spec_insert_all(e, improving), unimprovable), constant);
}

/// After a skill is added, looking it up by its English name finds it:
/// the added skill is the one the map holds under that name.
pub proof fn lemma_added_skill_found(c: CharacterView, name: Seq<char>, value: i32)
    requires
        spec_find_skill(c.skills, SkillMatch::Key, spec_added_skill_name(name).0) is None,
    ensures
        ({
            let e = spec_added_skill_name(name);
            let after = c.skills.push(spec_skill(e, value, true, false, false));
            &&& spec_find_skill(after, SkillMatch::Key, e.0) == Some(c.skills.len() as int)
            &&& after[c.skills.len() as int] == spec_skill(e, value, true, false, false)
        }),
{
    let e = spec_added_skill_name(name);
    let p = spec_skill_matches(SkillMatch::Key, e.0);
    let after = c.skills.push(spec_skill(e, value, true, false, false));
    lemma_first_index(c.skills, p);
    assert forall|j: int| 0 <= j < c.skills.len() implies !p(#[trigger] after[j]) by {
        assert(after[j] == c.skills[j]);
    }
    lemma_first_index_at(after, p, c.skills.len() as int);
}

/// Deleting the skills that the player added under a name keeps every
/// skill of the sheet's own.
pub proof fn lemma_delete_keeps_default_skills(s: Seq<SkillView>, name: Seq<char>, i: int)
    requires
        0 <= i < s.len(),
        s[i].default,
    ensures
        spec_without_custom(s, name).contains(s[i]),
{
    let keep = |v: SkillView| v.default || !spec_entry_equals(v.name, name);
    assert(keep(s[i]));
    s.lemma_filter_contains(keep, i);
}

/// A reset brings each value back to where it started.
pub proof fn lemma_reset_restores_start(c: CharacterView)
    ensures
        ({
            let r = CharacterView {
                dead: false,
                major_wound: false,
                insane: false,
                fragile_mind: false,
                hp: CharacterVariable { current: c.hp.start, initial: c.hp.start, ..c.hp },
                sanity: CharacterVariable { current: c.sanity.start, initial: c.sanity.start, ..c.sanity },
                luck: CharacterVariable { current: c.luck.start, initial: c.luck.start, ..c.luck },
                magic: CharacterVariable { current: c.magic.start, initial: c.magic.start, ..c.magic },
                ..c
            };
            &&& r.hp.current == c.hp.start
            &&& r.sanity.current == c.sanity.start
            &&& r.luck.current == c.luck.start
            &&& r.magic.current == c.magic.start
            &&& r.skills == c.skills
        }),
{
}

/// Setting a characteristic by a name that one of them has: the first
/// characteristic of that name then holds the value.
pub proof fn lemma_set_attribute_then_get(c: CharacterView, name: Seq<char>, value: i32)
    requires
        spec_attribute_index(c.attributes, name) is Some,
        c.attributes.len() == 8,
    ensures
        ({
            let a = spec_set_attribute(c, name, value).attributes;
            &&& spec_attribute_index(a, name) == spec_attribute_index(c.attributes, name)
            &&& a[spec_attribute_index(a, name)->0].1 == value
        }),
{
    let i = spec_attribute_index(c.attributes, name)->0;
    let a = c.attributes;
    let b = spec_set_attribute(c, name, value).attributes;
    assert(b == a.update(i, (a[i].0, value)));
    crate::character::attributes::lemma_attribute_index(a, name);
    assert forall|j: int| 0 <= j < i implies !spec_entry_equals(#[trigger] b[j].0, name) by {
        assert(b[j] == a[j]);
    }
    crate::character::attributes::lemma_attribute_index_at(b, name, i);
}

} // verus!
