use cthulhu_roller::character::attributes::Attributes;
use cthulhu_roller::character::item::Item;
use cthulhu_roller::character::skill::Skill;
use cthulhu_roller::development::{develop_skill, develop_skills, improve_dice_text, DevelopError};
use cthulhu_roller::locale::LocaleEntry;
use cthulhu_roller::roller::battle::{initiative_list, InitiativeListError};
use cthulhu_roller::roller::improve_roll::ImproveResult;
use cthulhu_roller::text::split_whitespace;
use cthulhu_roller::character::stats::{gm_condition, improve_luck, luck_apply, magic_apply, sleep_apply, GmCondition, LuckError};
use cthulhu_roller::character::talents::TalentError;
use cthulhu_roller::user_data::{ActiveError, CreateError, UserData};
use cthulhu_roller::character::weapon::{Ammo, Attack, AttacksModifier, RangeDamage, Weapon, WeaponError, WeaponOk};
use cthulhu_roller::character::{Character, CharacterVariable};
use cthulhu_roller::inventory::{
    add_item, find_item, find_weapon, items_message, receive_item, received_message, take_item, take_weapon,
};
use cthulhu_roller::locale::LocaleLang;
use cthulhu_roller::message::MessageContent;
use cthulhu_roller::play::{
    attack_message, damage_message, damage_query, damage_rolls, fire_weapon, luck_offer_label, luck_offers, luck_spent_message,
    attack_croll_query, attack_round, find_attack, luck_check, luck_check_apply, maneuver_dice, offers_push,
    mark_skill, marks_after_choice, marks_improvement, offers_choice, push_roll_note, resolve_attack, round_marks_improvement,
    spend_luck, with_skill_marked, LuckOffer,
};
use cthulhu_roller::roller::croll::{croll_impl, CrollQueryError, CrollResult};
use cthulhu_roller::roller::dice_rng::DiceRng;
use cthulhu_roller::roller::modifier_dice::{ModifierDice, ModifierDiceType};
use cthulhu_roller::roller::roll::RollResult;
use cthulhu_roller::roller::success_level::SuccessLevel;
use std::ops::RangeInclusive;

struct FixedRng(i32);

impl DiceRng for FixedRng {
    fn random_range(&mut self, range: RangeInclusive<i32>) -> i32 {
        self.0.min(*range.end()).max(*range.start())
    }
}

fn anna() -> Character {
    Character::new("Anna", Attributes::new(50, 60, 70, 40, 55, 65, 45, 80), 55, None)
}

fn knife() -> Weapon {
    let rds = RangeDamage::from(vec!["-".to_string()], vec!["1d4".to_string()]).ok().unwrap();
    Weapon::new("Knife", rds, "1", true, true, "Fighting (Brawl)", None, None)
}

fn revolver() -> Weapon {
    let rds = RangeDamage::from(vec!["15".to_string()], vec!["1d10".to_string()]).ok().unwrap();
    Weapon::new(".38 revolver", rds, "1", false, false, "Firearms (Handgun)", Some(100), Some(Ammo::new(6, 12)))
}

#[test]
fn success_marks_the_skill_unless_bonus_dice_helped() {
    let success = CrollResult::new("50", 50, 30, 0, vec![3], None);
    assert!(marks_improvement(true, &success));
    assert!(!marks_improvement(false, &success));
    let failure = CrollResult::new("50", 50, 62, 2, vec![6], None);
    assert!(!marks_improvement(true, &failure));
    let bonus = CrollResult::new("50b", 50, 22, 2, vec![2, 7], Some(ModifierDice::new(ModifierDiceType::Bonus, 1)));
    assert!(!marks_improvement(true, &bonus));
    let penalty = CrollResult::new("50p", 50, 42, 2, vec![2, 4], Some(ModifierDice::new(ModifierDiceType::Penalty, 1)));
    assert!(marks_improvement(true, &penalty));
}

#[test]
fn choice_offered_below_extreme_success() {
    assert!(offers_choice(SuccessLevel::Failure));
    assert!(offers_choice(SuccessLevel::Success));
    assert!(offers_choice(SuccessLevel::HardSuccess));
    assert!(!offers_choice(SuccessLevel::ExtremeSuccess));
    assert!(!offers_choice(SuccessLevel::CriticalSuccess));
    assert!(!offers_choice(SuccessLevel::CriticalFailure));
}

#[test]
fn luck_offers_each_better_level_at_its_cost() {
    let c = CrollResult::new("50", 50, 62, 2, vec![6], None);
    let offers = luck_offers(&c, 40);
    assert_eq!(
        offers,
        vec![
            LuckOffer { level: SuccessLevel::Success, cost: 12, affordable: true },
            LuckOffer { level: SuccessLevel::HardSuccess, cost: 37, affordable: true },
            LuckOffer { level: SuccessLevel::ExtremeSuccess, cost: 52, affordable: false },
        ]
    );
    let hard = CrollResult::new("50", 50, 20, 0, vec![2], None);
    assert_eq!(luck_offers(&hard, 0), vec![LuckOffer { level: SuccessLevel::ExtremeSuccess, cost: 10, affordable: false }]);
    let extreme = CrollResult::new("50", 50, 5, 5, vec![0], None);
    assert_eq!(luck_offers(&extreme, 99), vec![]);
}

#[test]
fn spending_luck_lowers_the_roll_and_the_luck() {
    let mut c = CrollResult::new("50", 50, 62, 2, vec![6], None);
    let mut luck = CharacterVariable::new(55, 99);
    let cost = spend_luck(&mut c, &mut luck, SuccessLevel::HardSuccess);
    assert_eq!(cost, 37);
    assert_eq!(c.result(), 25);
    assert_eq!(c.success_level, SuccessLevel::HardSuccess);
    assert_eq!(luck.current, 18);
    let m = luck_spent_message(LocaleLang::English, &c, "Spot Hidden", "Anna", cost, luck.current);
    assert_eq!(m.title, "**⭐⭐ Hard Success**\nSpot Hidden (`Anna`) (🍀)");
    assert!(m.description.ends_with("\n\n🍀-37 (18)"));
}

#[test]
fn pushed_roll_notes() {
    assert_eq!(push_roll_note(LocaleLang::English, SuccessLevel::Failure), "\n\n🥊 Push: ***Prepare for the consequences...***");
    assert_eq!(push_roll_note(LocaleLang::English, SuccessLevel::Success), "\n\n🥊 Push: *You got lucky this time...*");
    assert_eq!(push_roll_note(LocaleLang::Polski, SuccessLevel::HardSuccess), "\n\n🥊 Forsuj: *Tym razem ci się poszczęściło...*");
}

#[test]
fn marked_note_only_when_newly_marked() {
    let m = MessageContent { title: "T".to_string(), description: "D".to_string(), footer: String::new(), colour: None };
    assert_eq!(with_skill_marked(m.clone(), LocaleLang::English, false, true).description, "D\nSkill marked to improve.");
    assert_eq!(with_skill_marked(m.clone(), LocaleLang::English, true, true).description, "D");
    assert_eq!(with_skill_marked(m, LocaleLang::English, false, false).description, "D");
}

#[test]
fn firing_takes_a_round_or_hits() {
    let mut fist = anna().weapons.remove(0);
    assert_eq!(fire_weapon(&mut fist), Ok(WeaponOk::Hit));
    let mut r = revolver();
    assert_eq!(fire_weapon(&mut r), Err(WeaponError::ClipEmpty));
    assert_eq!(r.reload(), Ok(WeaponOk::Loaded(6)));
    assert_eq!(fire_weapon(&mut r), Ok(WeaponOk::Shot(1)));
    assert_eq!(r.ammo.unwrap().clip_rounds, 5);
}

#[test]
fn attacks_jam_miss_or_fail() {
    let mut c = CrollResult::new("40", 40, 100, 0, vec![0], None);
    let (last, choice) = resolve_attack(&mut c, &Ok(WeaponOk::Shot(1)), Some(100));
    assert!(last);
    assert!(!choice);
    assert_eq!(c.success_level, SuccessLevel::CriticalFailure);

    let mut c = CrollResult::new("40", 40, 30, 0, vec![3], None);
    let (last, choice) = resolve_attack(&mut c, &Ok(WeaponOk::Shot(1)), Some(100));
    assert!(!last);
    assert!(choice);
    assert_eq!(c.success_level, SuccessLevel::Success);

    let mut c = CrollResult::new("40", 40, 5, 5, vec![0], None);
    let (last, choice) = resolve_attack(&mut c, &Err(WeaponError::ClipEmpty), None);
    assert!(!last);
    assert!(!choice);
    assert_eq!(c.success_level, SuccessLevel::Failure);
}

#[test]
fn attack_messages() {
    let c = CrollResult::new("40", 40, 30, 0, vec![3], None);
    let m = attack_message(LocaleLang::English, &c, &Ok(WeaponOk::Shot(1)), None, 0, "Firearms", "Anna");
    assert_eq!(m.title, "**⭐ Success**\nFirearms (`Anna`)");
    assert!(m.description.starts_with("Hit!\n\n**30** / 40"));
    let c = CrollResult::new("40", 40, 5, 5, vec![0], None);
    let m = attack_message(LocaleLang::English, &c, &Ok(WeaponOk::Hit), None, 0, "Brawl", "Anna");
    assert!(m.description.starts_with("**Critical Hit!**\n\n"));
    let m = attack_message(LocaleLang::English, &c, &Err(WeaponError::ClipEmpty), None, 0, "Brawl", "Anna");
    assert_eq!(m.description, "**Empty clip!**");
    let c = CrollResult::new("40", 40, 99, 9, vec![9], None);
    let m = attack_message(LocaleLang::English, &c, &Ok(WeaponOk::Shot(1)), Some(98), 3, "Firearms", "Anna");
    assert!(m.description.ends_with("\n**Weapon has jammed!**\n🎲: **3**"));
}

#[test]
fn damage_query_adds_the_bonus() {
    let mut a = anna();
    assert_eq!(damage_query(LocaleLang::English, &a, &revolver(), Some(5)), "1d10");
    a.build = 1;
    assert_eq!(damage_query(LocaleLang::English, &a, &knife(), None), "1d4+1d4");
    assert_eq!(damage_query(LocaleLang::Polski, &a, &knife(), None), "1k4+1k4");
    let mut half = knife();
    half.apply_half_dm();
    assert_eq!(damage_query(LocaleLang::English, &a, &half, None), "1d4+1d4x0.5");
    a.build = 0;
    assert_eq!(damage_query(LocaleLang::English, &a, &knife(), None), "1d4");
}

#[test]
fn damage_rolls_normal_and_extreme() {
    let mut rng = FixedRng(3);
    let rolls = damage_rolls(&mut rng, "1d10", "1d10", false, "nxe").ok().unwrap();
    assert_eq!(rolls.len(), 2);
    assert_eq!(rolls[0].result(), 3);
    assert_eq!(rolls[1].result(), 10);
    let rolls = damage_rolls(&mut rng, "1d10", "1d6", true, "e").ok().unwrap();
    assert_eq!(rolls.len(), 1);
    assert_eq!(rolls[0].result(), 13);
    assert!(damage_rolls(&mut rng, "1d99999999999", "1d6", false, "n").is_err());
    assert_eq!(damage_rolls(&mut rng, "1d99999999999", "1d6", false, "zz").ok().unwrap().len(), 0);
}

#[test]
fn damage_message_lists_each_roll() {
    let results = vec![RollResult::new("1d10", 3, vec![3], 0), RollResult::new("1d6", 6, vec![6], 0)];
    let m = damage_message(LocaleLang::English, ".38 revolver", "1d10", &results);
    assert_eq!(m.title, "**9**");
    assert_eq!(m.description, "**.38 revolver (1d10)**\n\n🎲 `[3]`\n🎲 `[6]`");
    let m = damage_message(LocaleLang::English, "Knife", "1d4", &[]);
    assert_eq!(m.title, "**0**");
    assert_eq!(m.description, "**Knife (1d4)**\n\n");
}

#[test]
fn luck_changes_and_refusals() {
    let mut a = anna();
    assert_eq!(a.luck.current, 55);
    let m = luck_apply(&mut a, -5, "-5").ok().unwrap();
    assert_eq!(a.luck.current, 50);
    assert_eq!(m.title, "`Anna`");
    assert_eq!(m.description, "🍀 **-5** (-5)\n🍀 **50**");
    assert_eq!(luck_apply(&mut a, -51, "-51").err(), Some(LuckError::CantSpendLuck));
    assert_eq!(a.luck.current, 50);
    let m = luck_apply(&mut a, 3, "1d3").ok().unwrap();
    assert_eq!(m.description, "🍀 **+3** (1d3)\n🍀 **53**");
}

#[test]
fn skill_test_queries() {
    let c = croll_impl("60").ok().unwrap();
    assert_eq!(c.threshold, 60);
    assert!(c.modifier_dice.is_none());
    assert!((1..=100).contains(&c.result()));
    let c = croll_impl("45 ++-").ok().unwrap();
    assert_eq!(c.threshold, 45);
    assert_eq!(c.modifier_dice, Some(ModifierDice::new(ModifierDiceType::Bonus, 1)));
    assert_eq!(c.ten_rolls.len(), 2);
    assert_eq!(croll_impl("abc").err(), Some(CrollQueryError::InvalidQuery));
}

#[test]
fn items_found_added_and_taken() {
    let mut items = vec![Item::new("Rope", 2, Some("m")), Item::new("Torch", 1, None)];
    assert_eq!(find_item(&items, "tOrC"), Some(1));
    assert_eq!(find_item(&items, "lamp"), None);
    add_item(&mut items, "rope", 3, None);
    assert_eq!(items[0].quantity, 5);
    add_item(&mut items, "Lamp", 1, None);
    assert_eq!(items.len(), 3);
    assert_eq!(items[2].name, "Lamp");
    let taken = take_item(&mut items, "rope", 2).unwrap();
    assert_eq!(taken.quantity, 2);
    assert_eq!(taken.unit, Some("m".to_string()));
    assert_eq!(items[0].quantity, 3);
    let taken = take_item(&mut items, "torch", 5).unwrap();
    assert_eq!(taken.quantity, 1);
    assert_eq!(items.len(), 2);
    assert!(take_item(&mut items, "torch", 1).is_none());
    let mut other = vec![Item::new("Old rope", 1, None)];
    receive_item(&mut other, Item::new("rope", 4, None));
    assert_eq!(other[0].quantity, 5);
    receive_item(&mut other, Item::new("Map", 1, None));
    assert_eq!(other.len(), 2);
}

#[test]
fn taking_then_receiving_restores() {
    let mut items = vec![Item::new("Rope", 5, None), Item::new("Map", 1, None)];
    let taken = take_item(&mut items, "ro", 2).unwrap();
    receive_item(&mut items, taken);
    assert_eq!(items[0].quantity, 5);
    assert_eq!(items.len(), 2);
}

#[test]
fn inventory_messages() {
    let m = items_message(LocaleLang::English, "Anna", true, "Rope", 2);
    assert_eq!(m.title, "`Anna`");
    assert_eq!(m.description, "➕ `Rope [2 pcs]`");
    let m = items_message(LocaleLang::Polski, "Anna", false, "Rope", 1);
    assert_eq!(m.description, "➖ `Rope [1 szt]`");
    let m = received_message(LocaleLang::English, "Bob", false, "Rope [2 pcs]", "Anna");
    assert_eq!(m.title, "`Bob`: received item `Rope [2 pcs]` from `Anna`");
    let m = received_message(LocaleLang::Polski, "Bob", true, "Knife", "Anna");
    assert_eq!(m.title, "`Bob`: otrzymano broń `Knife` od `Anna`");
}

#[test]
fn weapons_found_and_handed_over() {
    let mut a = anna();
    a.weapons.push(knife());
    let fist_name = a.weapons[0].name.clone();
    assert_eq!(find_weapon(&a.weapons, &fist_name, false), Some(0));
    assert_eq!(find_weapon(&a.weapons, &fist_name, true), None);
    assert_eq!(find_weapon(&a.weapons, "KNI", true), Some(a.weapons.len() - 1));
    let n = a.weapons.len();
    let w = take_weapon(&mut a.weapons, "knife", true).unwrap();
    assert_eq!(w.name, "Knife");
    assert_eq!(a.weapons.len(), n - 1);
    assert!(take_weapon(&mut a.weapons, "knife", true).is_none());
}

#[test]
fn words_split_on_whitespace() {
    assert_eq!(split_whitespace("  Anna 60\tBob\n 45 "), vec!["Anna", "60", "Bob", "45"]);
    assert_eq!(split_whitespace(""), Vec::<String>::new());
    assert_eq!(split_whitespace(" \u{3000} "), Vec::<String>::new());
    assert_eq!(split_whitespace("a\u{a0}b"), vec!["a", "b"]);
}

#[test]
fn initiative_lists() {
    let v = initiative_list("Anna 60 Bob 45", true).ok().unwrap();
    assert_eq!(v.len(), 2);
    assert_eq!(v[0].name, "Anna");
    assert_eq!(v[0].croll_result.threshold, 60);
    assert_eq!(v[1].name, "Bob");
    assert_eq!(v[1].croll_result.query, "45");
    assert_eq!(initiative_list("Anna 60 Bob", true).err(), Some(InitiativeListError::OddList));
    assert_eq!(initiative_list("Anna x Bob 45", true).err(), Some(InitiativeListError::InvalidThreshold));
    assert_eq!(initiative_list("Anna 60 anna 45", true).err(), Some(InitiativeListError::NotUnique));
    assert_eq!(initiative_list("Anna 60 anna 45", false).ok().unwrap().len(), 2);
    assert_eq!(initiative_list("Anna 60 anna x", true).err(), Some(InitiativeListError::InvalidThreshold));
    assert_eq!(initiative_list("", true).ok().unwrap().len(), 0);
}

fn skill(name: &str, value: i32, marked: bool, constant: bool) -> Skill {
    let mut s = Skill::new_custom(LocaleEntry::new(name, name), value);
    s.to_improve = marked;
    s.constant = constant;
    s
}

#[test]
fn developing_one_skill() {
    let mut s = skill("Climb", 40, true, false);
    let m = develop_skill(LocaleLang::English, &mut s, &ImproveResult::new(40, 70), 4, "d6").ok().unwrap().unwrap();
    assert_eq!(s.value, 44);
    assert!(!s.to_improve);
    assert_eq!(m.title, "**⭐ Success**\nClimb");
    assert_eq!(m.description, "**70** / 40\n40 **+4** = **44** (d6)");
    let mut s = skill("Climb", 40, true, false);
    assert!(develop_skill(LocaleLang::English, &mut s, &ImproveResult::new(40, 30), 4, "d6").ok().unwrap().is_none());
    assert_eq!(s.value, 40);
    assert!(!s.to_improve);
    let mut s = skill("Climb", 40, true, true);
    assert!(develop_skill(LocaleLang::English, &mut s, &ImproveResult::new(40, 99), 4, "d6").is_err());
    assert_eq!(s.value, 40);
}

#[test]
fn development_phase() {
    assert_eq!(improve_dice_text(None, LocaleLang::English), "d6");
    assert_eq!(improve_dice_text(None, LocaleLang::Polski), "k6");
    assert_eq!(improve_dice_text(Some("1d10"), LocaleLang::Polski), "1k10");
    let mut skills = vec![skill("Climb", 40, true, false), skill("Swim", 30, false, false)];
    let mut rng = FixedRng(97);
    let (msgs, none) = develop_skills(&mut rng, LocaleLang::English, &mut skills, "d6").ok().unwrap();
    assert!(!none);
    assert_eq!(msgs.len(), 1);
    assert_eq!(skills[0].value, 46);
    assert!(!skills[0].to_improve);
    assert_eq!(skills[1].value, 30);
    let (msgs, none) = develop_skills(&mut rng, LocaleLang::English, &mut skills, "d6").ok().unwrap();
    assert!(none);
    assert_eq!(msgs[0].title, "is not marked to be improved");
}

#[test]
fn luck_improvement() {
    let mut a = anna();
    let m = improve_luck(&mut FixedRng(97), &mut a, LocaleLang::English);
    assert_eq!(a.luck.current, 65);
    assert_eq!(m.title, "**⭐ Success**");
    assert_eq!(m.description, "**97** / 55\n🍀 **+10** (1d10)\n🍀 **65**");
    let m = improve_luck(&mut FixedRng(3), &mut a, LocaleLang::Polski);
    assert_eq!(a.luck.current, 65);
    assert_eq!(m.description, "**3** / 65");
}

#[test]
fn magic_and_sleep() {
    let mut a = anna();
    assert_eq!(a.magic.current, 9);
    let m = magic_apply(&mut a, -3);
    assert_eq!(a.magic.current, 6);
    assert_eq!(m.title, "`Anna`");
    assert_eq!(m.description, "🪄 **-3**\n🪄 **6**/9");
    a.sanity.modify(-5);
    let m = sleep_apply(&mut a);
    assert_eq!(a.sanity.initial, 40);
    assert_eq!(m.title, "`Anna` has survived another day. 🎉");
    assert_eq!(m.description, "Updating initial 🧠 Sanity: **40**/40");
}

#[test]
fn characters_kept_selected_and_dropped() {
    let mut u = UserData::default();
    assert!(matches!(u.active_index(), Err(ActiveError::NoCharacterSelected)));
    assert!(u.create_character("Anna", anna(), 2).is_ok());
    assert_eq!(u.active_index().ok(), Some(0));
    let bob = Character::new("Bob", Attributes::new(50, 50, 50, 50, 50, 50, 50, 50), 40, None);
    assert!(u.create_character("Bob", bob, 2).is_ok());
    assert_eq!(u.active_index().ok(), Some(1));
    let carl = Character::new("Carl", Attributes::new(50, 50, 50, 50, 50, 50, 50, 50), 40, None);
    assert_eq!(u.create_character("Carl", carl, 2).err(), Some(CreateError::TooManyCharacters));
    assert_eq!(u.find_character("Carl"), None);
    assert!(u.select_character("Anna").is_ok());
    assert_eq!(u.active_character.as_deref(), Some("Anna"));
    assert!(matches!(u.select_character("Dora"), Err(ActiveError::CharacterNotFound(n)) if n == "Dora"));
    u.remove_character("Anna");
    assert_eq!(u.find_character("Anna"), None);
    assert!(u.active_character.is_none());
    assert_eq!(u.characters.len(), 1);
    u.active_character = Some("Ghost".to_string());
    let e = u.active_index().err().unwrap();
    assert_eq!(e.to_string(LocaleLang::English), "No such character: `Ghost`");
    assert_eq!(ActiveError::NoCharacterSelected.to_string(LocaleLang::Polski), "Nie wybrano żadnej postaci");
}

#[test]
fn keeping_under_a_taken_name_replaces() {
    let mut u = UserData::default();
    u.insert_character("Anna", anna());
    let other = Character::new("Anna", Attributes::new(10, 10, 10, 10, 10, 10, 10, 10), 5, None);
    u.insert_character("Anna", other);
    assert_eq!(u.characters.len(), 1);
    assert_eq!(u.characters[0].1.luck.current, 5);
}

#[test]
fn pulp_talents_added_and_removed() {
    let mut a = anna();
    a.add_pulp_talent("fighting (brawl)");
    assert_eq!(a.pulp_talents.len(), 1);
    assert_eq!(a.pulp_talents[0].en, "Fighting (Brawl)");
    assert_eq!(a.remove_pulp_talent("zzz"), Err(TalentError::NoSuchTalent));
    assert_eq!(a.remove_pulp_talent("brawl"), Ok(()));
    assert!(a.pulp_talents.is_empty());
}

#[test]
fn game_master_conditions() {
    let mut a = anna();
    let m = gm_condition(&mut a, "Anna", LocaleLang::English, GmCondition::Insane);
    assert!(a.fragile_mind);
    assert_eq!(m.title, "**`Anna` has gone mad!**");
    let m = gm_condition(&mut a, "Anna", LocaleLang::English, GmCondition::Wounded);
    assert!(a.major_wound);
    assert_eq!(m.title, "**`Anna`, your body has been heavily wounded...**");
    let m = gm_condition(&mut a, "anna", LocaleLang::English, GmCondition::Dead);
    assert!(a.dead);
    assert_eq!(m.title, "**`anna` 💀**");
    gm_condition(&mut a, "Anna", LocaleLang::English, GmCondition::Revived);
    gm_condition(&mut a, "Anna", LocaleLang::English, GmCondition::Healed);
    gm_condition(&mut a, "Anna", LocaleLang::English, GmCondition::Sane);
    assert!(!a.dead && !a.major_wound && !a.fragile_mind);
}

#[test]
fn push_and_luck_buttons() {
    assert!(offers_push(SuccessLevel::Failure));
    assert!(!offers_push(SuccessLevel::CriticalFailure));
    assert!(!offers_push(SuccessLevel::Success));
    let offer = LuckOffer { level: SuccessLevel::HardSuccess, cost: 37, affordable: true };
    assert_eq!(luck_offer_label(LocaleLang::English, &offer), "🍀37➡️⭐⭐ Hard Success");
}

#[test]
fn maneuver_penalty_dice() {
    assert_eq!(maneuver_dice(3, 0), None);
    assert_eq!(maneuver_dice(2, 0).as_deref(), Some("--"));
    assert_eq!(maneuver_dice(1, 0).as_deref(), Some("-"));
    assert_eq!(maneuver_dice(0, 0).as_deref(), Some(""));
    assert_eq!(maneuver_dice(-2, 1).as_deref(), Some(""));
}

#[test]
fn rounds_of_attacks() {
    let mut w = revolver();
    assert_eq!(w.reload(), Ok(WeaponOk::Loaded(6)));
    let three = Attack::new(3, AttacksModifier::OnePenaltyToAll);
    let v = attack_round(&mut FixedRng(5), LocaleLang::English, &mut w, &three, 50, None, true, "Firearms", "Anna").unwrap();
    assert_eq!(v.len(), 3);
    assert_eq!(v[0].croll_result.query, "50-");
    assert_eq!(v[0].croll_result.result(), 55);
    assert_eq!(v[0].croll_result.success_level, SuccessLevel::Failure);
    assert!(v.iter().all(|o| !o.last && o.offers_choice && !o.marks_improvement));
    assert_eq!(w.ammo.unwrap().clip_rounds, 3);
    let mut jamming = revolver();
    jamming.malfunction = Some(98);
    jamming.reload().ok().unwrap();
    let v = attack_round(&mut FixedRng(9), LocaleLang::English, &mut jamming, &three, 50, Some("+"), true, "Firearms", "Anna").unwrap();
    assert_eq!(v.len(), 1);
    assert!(v[0].last);
    assert_eq!(v[0].croll_result.query, "50+-");
    assert!(v[0].message.description.ends_with("\n**Weapon has jammed!**\n🎲: **6**"));
    assert!(attack_round(&mut FixedRng(5), LocaleLang::English, &mut w, &three, 50, Some("x"), true, "Firearms", "Anna").is_none());
    assert_eq!(w.ammo.unwrap().clip_rounds, 3);
    let weapon = knife();
    assert_eq!(find_attack(&weapon, 1), Some(0));
    assert_eq!(find_attack(&weapon, 2), None);
    assert_eq!(attack_croll_query(40, Some("+"), &Attack::new(3, AttacksModifier::IncreasingPenalty), 2), "40+--");
}

#[test]
fn development_phase_errors() {
    let mut skills = vec![skill("Climb", 40, true, true)];
    let r = develop_skills(&mut FixedRng(97), LocaleLang::English, &mut skills, "d6");
    assert!(matches!(r, Err(DevelopError::Skill(_))));
    assert!(!skills[0].to_improve);
    assert_eq!(skills[0].value, 40);
    let mut skills = vec![skill("Climb", 40, true, false)];
    let r = develop_skills(&mut FixedRng(97), LocaleLang::English, &mut skills, "99999999999d6");
    assert!(matches!(r, Err(DevelopError::Roll(_))));
    assert!(!skills[0].to_improve);
    assert_eq!(skills[0].value, 40);
    let mut skills = vec![skill("Climb", 40, true, false)];
    let (msgs, none) = develop_skills(&mut FixedRng(10), LocaleLang::English, &mut skills, "99999999999d6").ok().unwrap();
    assert!(!none);
    assert!(msgs.is_empty());
    assert!(!skills[0].to_improve);
    let mut skills = vec![skill("Climb", 40, false, true)];
    let (_, none) = develop_skills(&mut FixedRng(97), LocaleLang::English, &mut skills, "99999999999d6").ok().unwrap();
    assert!(none);
}

#[test]
fn choice_after_a_skill_test_decides_the_mark() {
    let success = CrollResult::new("50", 50, 30, 0, vec![3], None);
    let failure = CrollResult::new("50", 50, 62, 2, vec![6], None);
    assert!(marks_after_choice(true, &success, false));
    assert!(!marks_after_choice(true, &success, true));
    assert!(!marks_after_choice(true, &failure, false));
    let mut a = anna();
    let name = a.skills[0].name.en.clone();
    let before = a.skills[0].to_improve;
    assert!(mark_skill(&mut a, &name, false));
    assert_eq!(a.skills[0].to_improve, before);
    assert!(mark_skill(&mut a, &name, true));
    assert!(a.skills[0].to_improve);
    assert!(mark_skill(&mut a, &name, false));
    assert!(a.skills[0].to_improve);
    assert!(!mark_skill(&mut a, "No such skill", true));
}

#[test]
fn a_round_marks_when_any_attack_does() {
    let mut w = knife();
    let attack = w.attacks[0];
    let v = attack_round(&mut FixedRng(0), LocaleLang::English, &mut w, &attack, 50, None, true, "Fighting (Brawl)", "Anna").unwrap();
    assert_eq!(round_marks_improvement(&v), v.iter().any(|o| o.marks_improvement));
    assert!(!round_marks_improvement(&vec![]));
}

#[test]
fn default_character_is_blank() {
    let c = Character::default();
    assert_eq!(c.name, "");
    assert_eq!(c.attributes.strength.value, 0);
    assert_eq!(c.attributes.education.name.en, "");
    assert_eq!(c.hp.current, 0);
    assert_eq!(c.luck.max, 0);
    assert!(c.skills.is_empty() && c.weapons.is_empty() && c.items.is_empty());
    assert!(c.pulp_archetype.is_none());
    assert!(!c.dead && !c.insane);
}

#[test]
fn skill_test_queries_with_letters() {
    let c = croll_impl("60ppb").ok().unwrap();
    assert_eq!(c.threshold, 60);
    assert_eq!(c.query, "60ppb");
    assert_eq!(c.modifier_dice, Some(ModifierDice::new(ModifierDiceType::Penalty, 1)));
    assert_eq!(c.ten_rolls.len(), 2);
    let c = croll_impl("50p").ok().unwrap();
    assert_eq!(c.modifier_dice, Some(ModifierDice::new(ModifierDiceType::Penalty, 1)));
    let c = croll_impl("70bb").ok().unwrap();
    assert_eq!(c.modifier_dice, Some(ModifierDice::new(ModifierDiceType::Bonus, 2)));
    assert_eq!(c.ten_rolls.len(), 3);
    let c = croll_impl("20bbppp").ok().unwrap();
    assert_eq!(c.threshold, 20);
    assert_eq!(c.modifier_dice, Some(ModifierDice::new(ModifierDiceType::Penalty, 1)));
    let c = croll_impl("45 b+-").ok().unwrap();
    assert_eq!(c.modifier_dice, Some(ModifierDice::new(ModifierDiceType::Bonus, 1)));
    assert_eq!(croll_impl("60pq").err(), Some(CrollQueryError::InvalidQuery));
    assert_eq!(croll_impl("bp").err(), Some(CrollQueryError::InvalidQuery));
}

struct SeqRng(Vec<i32>, usize);

impl DiceRng for SeqRng {
    fn random_range(&mut self, range: RangeInclusive<i32>) -> i32 {
        let v = self.0[self.1 % self.0.len()];
        self.1 += 1;
        v.min(*range.end()).max(*range.start())
    }
}

#[test]
fn luck_check_critical_raises_power() {
    let mut a = anna();
    let critical = CrollResult::new("55", 55, 1, 1, vec![0], None);
    assert_eq!(critical.success_level, SuccessLevel::CriticalSuccess);
    let m = luck_check_apply(&mut a, LocaleLang::English, "Anna", &critical, 7);
    assert_eq!(a.attributes.power.value, 52);
    assert_eq!(a.build, 10);
    assert!(m.title.ends_with("\nLuck (`Anna`)"));
    assert!(m.description.ends_with("\n45 + **7** (d10) = **52**"));
    let mut b = anna();
    let plain = CrollResult::new("55", 55, 30, 0, vec![3], None);
    let m = luck_check_apply(&mut b, LocaleLang::Polski, "Anna", &plain, 7);
    assert_eq!(b.attributes.power.value, 45);
    assert!(!m.description.contains("= **"));
    let mut c = anna();
    let m = luck_check(&mut SeqRng(vec![1, 0, 7], 0), &mut c, LocaleLang::Polski, "Anna", None).unwrap();
    assert_eq!(c.attributes.power.value, 52);
    assert!(m.description.ends_with("\n45 + **7** (k10) = **52**"));
    let mut d = anna();
    assert!(luck_check(&mut SeqRng(vec![5], 0), &mut d, LocaleLang::English, "Anna", Some("x")).is_none());
    assert_eq!(d.attributes.power.value, 45);
    let m = luck_check(&mut SeqRng(vec![5], 0), &mut d, LocaleLang::English, "Anna", Some("+")).unwrap();
    assert_eq!(d.attributes.power.value, 45);
    assert!(m.title.contains("Luck"));
}

#[test]
fn a_round_spends_one_round_per_attack() {
    let mut w = revolver();
    w.reload().ok().unwrap();
    assert_eq!(w.ammo, Some(Ammo { clip_rounds: 6, loose_rounds: 6, clip_size: 6 }));
    let attack = w.attacks[0];
    let v = attack_round(&mut FixedRng(3), LocaleLang::English, &mut w, &attack, 50, None, true, "Firearms (Handgun)", "Anna").unwrap();
    assert_eq!(v.len(), 1);
    assert_eq!(w.ammo, Some(Ammo { clip_rounds: 5, loose_rounds: 6, clip_size: 6 }));
    let mut k = knife();
    let attack = k.attacks[0];
    attack_round(&mut FixedRng(3), LocaleLang::English, &mut k, &attack, 50, None, true, "Fighting (Brawl)", "Anna").unwrap();
    assert_eq!(k.ammo, None);
}
