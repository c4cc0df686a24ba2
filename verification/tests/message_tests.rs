use cthulhu_roller::character::attributes::Attributes;
use cthulhu_roller::character::item::Item;
use cthulhu_roller::character::stats::{hp_apply, san_apply};
use cthulhu_roller::character::weapon::{Ammo, RangeDamage, Weapon};
use cthulhu_roller::character::Character;
use cthulhu_roller::locale::LocaleLang;
use cthulhu_roller::message::MessageContent;
use cthulhu_roller::roller::attribute_roll::{roll_attributes, AttributeRollResult};
use cthulhu_roller::roller::battle::{Battle, CharacterInitiative};
use cthulhu_roller::roller::croll::CrollResult;
use cthulhu_roller::roller::dice_rng::DiceRng;
use cthulhu_roller::roller::improve_roll::ImproveResult;
use cthulhu_roller::roller::modifier_dice::{ModifierDice, ModifierDiceType};
use cthulhu_roller::roller::roll::RollResult;
use cthulhu_roller::sheet::{format_equipment, format_sheet, SheetError};
use std::ops::RangeInclusive;

struct FixedRng(i32);

impl DiceRng for FixedRng {
    fn random_range(&mut self, range: RangeInclusive<i32>) -> i32 {
        self.0.min(*range.end()).max(*range.start())
    }
}

fn anna() -> Character {
    Character::new("Anna", Attributes::new(50, 60, 70, 40, 55, 65, 45, 80), 55, None)
}

#[test]
fn content_and_names() {
    let m = MessageContent {
        title: "T".to_string(),
        description: "D".to_string(),
        footer: String::new(),
        colour: None,
    };
    assert_eq!(m.to_content(), "**T**\n\nD");
    let m = m.with_skill_name("Dodge").with_character_name("Anna");
    assert_eq!(m.title, "T\nDodge (`Anna`)");
    let e = MessageContent::default();
    assert_eq!(e.to_content(), "");
}

#[test]
fn dice_result_message() {
    let r = RollResult::new("+2d6", -3, vec![-1, -2], 0);
    let m = MessageContent::from_dice_result(LocaleLang::Polski, r.clone(), false);
    assert_eq!(m.title, "**0**");
    assert_eq!(m.description, "🎲 `[-1]` `[-2]`\n*(-3)*");
    assert_eq!(m.footer, "2k6");
    let m = MessageContent::from_dice_result(LocaleLang::English, RollResult::new("2d6+1", 8, vec![3, 4], 1), false);
    assert_eq!(m.description, "🎲 `[3]` `[4]``+1`");
    assert_eq!(m.footer, "2d6+1");
    let m = MessageContent::from_dice_result(LocaleLang::English, r, true);
    assert_eq!(m.description, "");
    assert_eq!(m.footer, "");
}

#[test]
fn levels_and_improvement() {
    assert_eq!(MessageContent::from_levels(50).title, "**50 / 25 / 10**");
    assert_eq!(MessageContent::from_levels(-7).title, "**-7 / -3 / -1**");
    let m = MessageContent::from_improve(LocaleLang::English, &ImproveResult::new(40, 75));
    assert_eq!(m.title, "**⭐ Success**");
    assert_eq!(m.description, "**75** / 40");
    assert_eq!(m.colour, Some(0x415D43));
}

#[test]
fn skill_test_message_with_luck() {
    let c = CrollResult::new("50", 50, 62, 2, vec![6], None);
    let m = MessageContent::from_croll_result(LocaleLang::English, &c, false, false);
    assert_eq!(m.title, "**❌ Failure**");
    assert_eq!(m.colour, Some(0x800080));
    assert_eq!(m.description, "**62** / 50\n🎲  `[60]` `[2]`\n🍀 12 ➡️ ⭐ Success\n🍀 37 ➡️ ⭐⭐ Hard Success\n🍀 52 ➡️ ⭐⭐⭐ Extreme Success");
    let c = CrollResult::new("50b", 50, 22, 2, vec![2, 7], Some(ModifierDice::new(ModifierDiceType::Bonus, 1)));
    let m = MessageContent::from_croll_result(LocaleLang::English, &c, false, true);
    assert_eq!(m.description, "**22** / 50\n🎲  `[20]` `[70]` `[2]`\n➕ Bonus dice: 1");
    let m = MessageContent::from_croll_result(LocaleLang::English, &c, true, true);
    assert_eq!(m.description, "");
}

#[test]
fn sheet_messages() {
    let mut c = anna();
    let sheet = MessageContent::from_character_to_sheet(LocaleLang::English, &c);
    assert_eq!(sheet.len(), 3);
    assert!(sheet[0].description.starts_with("**Anna**\t❤️ **13**/13\t🧠 **45**\t🍀 **55**\t🪄 **9**/9\n```text\n"));
    assert!(sheet[0].description.contains("STR"));
    assert!(sheet[1].description.contains("Accounting"));
    assert!(sheet[2].description.starts_with("Weapons\n```text\n"));
    assert!(sheet[2].description.contains("🙌"));
    assert!(sheet[2].description.contains("25 Fighting (Brawl)"));
    assert!(sheet[2].description.ends_with("Items\n```text\n(no items)\n```"));
    let texts = format_sheet(&c, LocaleLang::English).ok().unwrap();
    assert_eq!(texts.len(), 3);
    assert_eq!(texts[0], sheet[0].description);
    assert!(texts[1].starts_with("```text\n") && texts[1].ends_with("```\n"));
    assert!(texts[1].contains("Accounting"));
    assert_eq!(texts[2], format_equipment(&c, LocaleLang::English));
    for k in 0..10 {
        c.add_skill(&format!("Custom {k}"), k).ok().unwrap();
    }
    assert_eq!(MessageContent::from_character_to_sheet(LocaleLang::Polski, &c).len(), 4);
    let texts = format_sheet(&c, LocaleLang::Polski).ok().unwrap();
    assert_eq!(texts.len(), 3);
    assert!(texts[1].contains("Custom 9"));
    let m = MessageContent::from_character_to_weapons(LocaleLang::Polski, &c);
    assert!(m.description.starts_with("Broń\n```text\n"));
    assert!(m.description.contains("Broń"));
    c.build = 2;
    let m = MessageContent::from_character_to_weapons(LocaleLang::English, &c);
    assert!(m.description.contains("1d3+DB (+1d6)"));
}

#[test]
fn weapon_table_lists_ranges_and_ammo() {
    let mut c = anna();
    let rds = RangeDamage::from(vec!["15".to_string(), "-".to_string()], vec!["1k10".to_string(), "1d4".to_string()])
        .ok()
        .unwrap();
    c.weapons.push(Weapon::new("Pistol", rds, "1", false, false, "Dodge", Some(99), Some(Ammo::new(6, 12))));
    let m = MessageContent::from_character_to_weapons(LocaleLang::English, &c);
    assert!(m.description.contains("1d10/1d4"));
    assert!(m.description.contains("15 m/-"));
    assert!(m.description.contains("0/6 [12]"));
    assert!(m.description.contains("20 Dodge"));
    assert!(m.description.find("Pistol").unwrap() < m.description.find("🙌").unwrap());
}

#[test]
fn item_messages() {
    let items = vec![Item::new("Rope", 2, Some("m")), Item::new("Lamp", 1, None), Item::new("Axe", 3, None)];
    let m = MessageContent::from_character_items(LocaleLang::English, &items);
    assert!(m.description.starts_with("Items\n```text\n"));
    assert!(m.description.ends_with("```\n"));
    let a = m.description.find("• Axe [3 pcs]").unwrap();
    let l = m.description.find("• Lamp").unwrap();
    let r = m.description.find("• Rope [2 m]").unwrap();
    assert!(a < l);
    assert!(a < r);
    let empty: Vec<Item> = vec![];
    let m = MessageContent::from_character_items(LocaleLang::Polski, &empty);
    assert_eq!(m.description, "Przedmioty\n```text\n(brak przedmiotów)\n```\n");
}

#[test]
fn hit_points_change() {
    let mut c = anna();
    let m = hp_apply(&mut c, -7, "-7", LocaleLang::English);
    assert_eq!(c.hp.current, 6);
    assert!(c.major_wound);
    assert_eq!(m.title, "`Anna`");
    assert_eq!(
        m.description,
        "❤️ **-7** (-7)\n❤️ **6**/13 🤕\n\n**Major wound!**\nYou fell.\nRoll a **CON** test not to blackout."
    );
    let mut c = anna();
    let m = hp_apply(&mut c, -20, "-20", LocaleLang::English);
    assert!(c.dead);
    assert_eq!(c.hp.current, 0);
    assert!(m.description.ends_with("**Death is inevitable.**"));
    let mut c = anna();
    let m = hp_apply(&mut c, 3, "3", LocaleLang::English);
    assert_eq!(c.hp.current, 13);
    assert_eq!(m.description, "❤️ **+3** (3)\n❤️ **13**/13");
    let mut c = anna();
    c.hp.current = 2;
    let m = hp_apply(&mut c, -2, "-2", LocaleLang::English);
    assert!(m.description.contains("**Knock Out!**"));
}

#[test]
fn sanity_change() {
    let mut c = anna();
    let m = san_apply(&mut c, -5, "-5", LocaleLang::English);
    assert_eq!(c.sanity.current, 40);
    assert!(!c.fragile_mind);
    assert!(m.description.starts_with("🧠 **-5** (-5)\n🧠 **40**\n\n**"));
    let m = san_apply(&mut c, -10, "-1d10", LocaleLang::English);
    assert_eq!(c.sanity.current, 30);
    assert!(c.fragile_mind);
    assert!(m.description.ends_with("**Indefinite insanity.**"));
    let _ = san_apply(&mut c, -40, "-40", LocaleLang::English);
    assert!(c.insane);
    assert_eq!(c.sanity.current, 0);
}

#[test]
fn rolled_characteristics() {
    let mut rng = FixedRng(4);
    let r = AttributeRollResult::new(&mut rng, None);
    assert_eq!(r.roll_map.len(), 8);
    assert_eq!(r.quick_rules_pts(), 460);
    assert_eq!(r.points_sum(), 5 * (12 * 5 + 14 * 3));
    assert!(!r.is_sum_eq_quick_rules());
    assert!(!r.is_sum_lt_quick_rules());
    assert_eq!(r.lowest_attribute_value(), 60);
    let m = MessageContent::from_attributes_result(LocaleLang::English, r);
    assert_eq!(m.footer, "510/460");
    assert!(m.description.contains("70 (35/14)"));
    assert!(m.description.contains("[4, 4, 6] (14)"));
    let mut rng = FixedRng(6);
    let p = AttributeRollResult::new(&mut rng, Some("power"));
    assert_eq!(p.quick_rules_pts(), 500);
    assert_eq!(p.roll_map[6].1.result(), 19);
    let real = roll_attributes(None);
    for (_, r) in real.roll_map.iter() {
        assert!(r.result() >= 3 && r.result() <= 18);
    }
}

#[test]
fn fight_table() {
    let a = CharacterInitiative { croll_result: CrollResult::new("50", 50, 1, 1, vec![0], None), name: "Anna".to_string() };
    let b = CharacterInitiative { croll_result: CrollResult::new("60", 60, 30, 0, vec![3], None), name: "Bob".to_string() };
    let battle = Battle::new(vec![b, a]);
    let m = MessageContent::from_battle(LocaleLang::English, &battle, false);
    assert_eq!(m.title, "Fight");
    assert!(m.description.starts_with("➡️ **Anna**\n```text\n"));
    assert!(m.description.contains("Bonus die to the first action") || m.description.contains("^ "));
    let m = MessageContent::from_battle(LocaleLang::English, &battle, true);
    assert!(!m.description.contains("DEX"));
}

#[test]
fn status_table_of_several() {
    let cs = vec![anna(), Character::new("Bob", Attributes::new(1, 1, 1, 33, 1, 1, 1, 1), 1, None)];
    let m = MessageContent::from_characters_to_status(LocaleLang::English, &cs);
    assert!(m.description.contains("Anna"));
    assert!(m.description.contains("13/13"));
    assert!(m.description.contains("33"));
}

#[test]
fn sheet_refused_without_dodge_or_weapon_skill() {
    let blank = Character::default();
    assert_eq!(format_sheet(&blank, LocaleLang::English).err(), Some(SheetError::NoDodge));
    assert_eq!(SheetError::NoDodge.to_string(), "No such skill: Dodge");
    let mut c = anna();
    let rds = RangeDamage::from(vec!["-".to_string()], vec!["1d6".to_string()]).ok().unwrap();
    c.weapons.push(Weapon::new("Whip", rds, "1", false, false, "Whip", None, None));
    assert_eq!(format_sheet(&c, LocaleLang::English).err(), Some(SheetError::NoWeaponSkill));
    assert_eq!(SheetError::NoWeaponSkill.to_string(), "No such skill");
}
