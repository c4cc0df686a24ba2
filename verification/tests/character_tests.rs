use cthulhu_roller::character::attributes::Attributes;
use cthulhu_roller::character::item::{Item, ItemError};
use cthulhu_roller::character::skill::{Skill, SkillError};
use cthulhu_roller::character::weapon::{
    attacks_from, weapon_from_form, Ammo, Attack, AttacksError, AttacksModifier, RangeDamage, RangeDamageError, Weapon,
    WeaponError, WeaponOk,
};
use cthulhu_roller::character::{default_skills, Character, CharacterVariable};
use cthulhu_roller::locale::{LocaleEntry, LocaleLang};
use cthulhu_roller::utils::to_uppercase_first_letter;

fn anna() -> Character {
    let attributes = Attributes::new(50, 60, 70, 40, 55, 65, 45, 80);
    Character::new("Anna", attributes, 55, None)
}

fn dmg_case(build: i32, dice: &str) {
    assert_eq!(Character::build_to_damage_modifier(build), dice, "build {build}");
}

#[test]
fn test_damage_modifier() {
    dmg_case(-2, "-2");
    dmg_case(-1, "-1");
    dmg_case(0, "0");
    dmg_case(1, "+1d4");
    dmg_case(2, "+1d6");
    dmg_case(3, "+2d6");
    dmg_case(4, "+3d6");
    dmg_case(5, "+4d6");
    dmg_case(6, "+5d6");
    dmg_case(7, "+6d6");
    dmg_case(8, "+7d6");
}

fn build_case(str: i32, build: i32) {
    let a = Attributes::new(str, 0, 0, 0, 0, 0, 0, 0);
    assert_eq!(a.calculate_build(), build, "str {str}");
}

#[test]
fn test_build() {
    build_case(2, -2);
    build_case(64, -2);
    build_case(65, -1);
    build_case(84, -1);
    build_case(85, 0);
    build_case(124, 0);
    build_case(125, 1);
    build_case(164, 1);
    build_case(165, 2);
    build_case(204, 2);
    build_case(205, 3);
    build_case(284, 3);
    build_case(285, 4);
    build_case(364, 4);
    build_case(365, 5);
    build_case(444, 5);
    build_case(445, 6);
    build_case(524, 6);
    build_case(525, 7);
    build_case(604, 7);
    build_case(605, 8);
    build_case(684, 8);
    build_case(685, 9);
}

#[test]
fn build_never_falls_as_strength_grows() {
    let mut last = Attributes::new(0, 0, 0, 0, 0, 0, 0, 0).calculate_build();
    for v in 1..1000 {
        let b = Attributes::new(v, 0, 0, 0, 0, 0, 0, 0).calculate_build();
        assert!(b >= last, "value {v}");
        last = b;
    }
}

#[test]
fn move_rate_and_hit_points() {
    let a = Attributes::new(50, 60, 70, 40, 0, 0, 0, 0);
    assert_eq!(a.calculate_move_rate(), 7);
    let a = Attributes::new(80, 60, 70, 90, 0, 0, 0, 0);
    assert_eq!(a.calculate_move_rate(), 9);
    let a = Attributes::new(80, 60, 70, 40, 0, 0, 0, 0);
    assert_eq!(a.calculate_move_rate(), 8);
    assert_eq!(a.calculate_hp(false), 13);
    assert_eq!(a.calculate_hp(true), 26);
    assert!(a.calculate_hp(true) >= a.calculate_hp(false));
    let a = Attributes::new(0, 0, 0, 0, 0, 0, 47, 0);
    assert_eq!(a.calculate_sanity(), 47);
    assert_eq!(a.calculate_magic(), 9);
}

#[test]
fn attributes_found_by_either_name() {
    let a = Attributes::new(50, 60, 70, 40, 55, 65, 45, 80);
    assert_eq!(a.get("strength").unwrap().value, 50);
    assert_eq!(a.get("siła").unwrap().value, 50);
    assert!(a.get("SIŁA").is_none());
    assert_eq!(a.get("Moc").unwrap().value, 45);
    assert!(a.get("luck").is_none());
    let mut a = a;
    a.get_mut("education").unwrap().value = 90;
    assert_eq!(a.education.value, 90);
    assert!(a.get_mut("nothing").is_none());
}

#[test]
fn new_character_has_derived_values_and_default_skills() {
    let c = anna();
    assert_eq!(c.name, "Anna");
    assert_eq!(c.build, 0);
    assert_eq!(c.move_rate, 7);
    assert_eq!(c.hp.max, 13);
    assert_eq!(c.hp.current, 13);
    assert_eq!(c.sanity.current, 45);
    assert_eq!(c.sanity.max, 99);
    assert_eq!(c.luck.current, 55);
    assert_eq!(c.magic.max, 9);
    assert_eq!(c.skills.len(), 47);
    assert_eq!(c.get_skill("Dodge").unwrap().value, 20);
    assert_eq!(c.get_skill("język ojczysty").unwrap().value, 80);
    assert_eq!(c.get_skill("Credit Rating").unwrap().improvable, false);
    assert!(c.get_skill("Science (any)").unwrap().constant);
    assert_eq!(c.weapons.len(), 1);
    assert_eq!(c.weapons[0].name, "🙌");
    assert_eq!(c.weapons[0].range_dmgs[0].damage, "1d3");
    assert_eq!(c.weapons[0].range_dmgs[0].range, None);
    assert_eq!(c.weapons[0].skill, "Fighting (Brawl)");
    assert!(c.weapons[0].default);
    let pulp = Character::new("Bob", Attributes::new(50, 60, 70, 40, 55, 65, 45, 80), 55, Some(LocaleEntry::new("Hard Boiled", "Twardziel")));
    assert_eq!(pulp.hp.max, 26);
}

#[test]
fn default_skill_map_has_each_name_once() {
    let skills = default_skills(&Attributes::new(1, 1, 1, 1, 1, 1, 1, 1));
    for i in 0..skills.len() {
        for j in (i + 1)..skills.len() {
            assert_ne!(skills[i].name.en, skills[j].name.en);
        }
    }
}

#[test]
fn set_attribute_recomputes_derived_values() {
    let mut c = anna();
    c.set_attribute("size", 150);
    assert_eq!(c.attributes.size.value, 150);
    assert_eq!(c.build, 2);
    assert_eq!(c.move_rate, 7);
    assert_eq!(c.hp.max, 21);
    c.set_attribute("KONDYCJA", 90);
    assert_eq!(c.hp.max, 24);
    c.set_attribute("power", 60);
    assert_eq!(c.build, 12);
    c.set_attribute("unknown", 5);
    assert_eq!(c.attributes.strength.value, 50);
}

#[test]
fn skills_found_by_name_and_part_of_it() {
    let c = anna();
    assert_eq!(c.get_skill_partial("brawl").unwrap().name.en, "Fighting (Brawl)");
    assert!(c.get_skill_partial("xyz").is_none());
    assert!(c.get_skill("Spot").is_none());
    let mut c = c;
    c.get_mut_skill("spot hidden").unwrap().value = 70;
    assert_eq!(c.get_skill("Spot Hidden").unwrap().value, 70);
    assert!(c.get_mut_skill("nothing").is_none());
}

#[test]
fn added_skill_is_found_and_not_added_twice() {
    let mut c = anna();
    assert!(c.add_skill("Basket Weaving", 30).is_ok());
    let s = c.get_skill("basket weaving").unwrap();
    assert_eq!(s.value, 30);
    assert!(!s.default);
    assert!(s.improvable);
    match c.add_skill("Basket Weaving", 40) {
        Err(e) => assert_eq!(e.to_string(LocaleLang::English), "Skill `Basket Weaving` already exists."),
        Ok(()) => panic!("added twice"),
    }
    match c.add_skill("dodge", 40) {
        Err(e) => assert_eq!(e.to_string(LocaleLang::Polski), "Umiejętność `dodge` już istnieje."),
        Ok(()) => panic!("added a default skill"),
    }
}

#[test]
fn set_skill_errors_and_mythos() {
    let mut c = anna();
    match c.set_skill("Nothing", 3) {
        Err(e) => assert_eq!(e.to_string(LocaleLang::English), "No such skill `Nothing`"),
        Ok(()) => panic!(),
    }
    match c.set_skill("Pilot (any)", 30) {
        Err(e) => {
            assert_eq!(e.to_string(LocaleLang::English), "Skill `Pilot (any)` can't be modified.");
            assert_eq!(e.to_string(LocaleLang::Polski), "Umiejętności `Pilotowanie (dowolne)` nie można modyfikować.");
        },
        Ok(()) => panic!(),
    }
    assert!(c.set_skill("Cthulhu Mythos", 12).is_ok());
    assert_eq!(c.sanity.max, 87);
    assert!(c.set_skill("listen", 60).is_ok());
    assert_eq!(c.get_skill("Listen").unwrap().value, 60);
}

#[test]
fn remove_and_delete_skills() {
    let mut c = anna();
    match c.remove_skill("Dodge") {
        Err(e) => {
            assert_eq!(e.to_string(LocaleLang::English), "Can't remove basic skill `Dodge`.");
            assert_eq!(e.to_string(LocaleLang::Polski), "Nie można usunąć podstawowej umiejętności `Dodge`.");
        },
        Ok(()) => panic!(),
    }
    c.add_skill("Juggling", 10).ok().unwrap();
    assert!(c.remove_skill("juggling").is_ok());
    assert_eq!(c.skills.len(), 48);
    c.delete_skill("juggling");
    assert_eq!(c.skills.len(), 47);
    c.delete_skill("Dodge");
    assert_eq!(c.skills.len(), 47);
    assert!(c.get_skill("Dodge").is_some());
}

#[test]
fn skill_set_and_modify() {
    let mut s = Skill::new_custom(LocaleEntry::new_single_lang("Art"), 10);
    assert!(s.modify(5).is_ok());
    assert_eq!(s.value, 15);
    assert!(s.set(40).is_ok());
    assert_eq!(s.value, 40);
    let mut k = Skill::new_default_constant(LocaleEntry::new("Science (any)", "Nauka (dowolna)"), 1);
    assert!(k.modify(5).is_err());
    assert_eq!(k.value, 1);
    let u = Skill::new_default_const(LocaleEntry::new_single_lang("X"), 2);
    assert!(u.default && !u.improvable && !u.constant);
    let d = Skill::new_default(LocaleEntry::new_single_lang("X"), 2);
    assert!(d.default && d.improvable && !d.constant);
    let e = SkillError::CantRemove("x".to_string());
    assert_eq!(e.to_string(LocaleLang::English), "Can't remove basic skill `x`.");
}

#[test]
fn variables_stay_between_zero_and_maximum() {
    let mut v = CharacterVariable::new(10, 12);
    v.modify(5);
    assert_eq!(v.current, 12);
    v.modify(-20);
    assert_eq!(v.current, 0);
    v.modify(3);
    v.update_initial();
    assert_eq!(v.initial, 3);
    v.reset();
    assert_eq!(v.current, 10);
    assert_eq!(v.initial, 10);
    let c = CharacterVariable::new_clamped(7);
    assert_eq!(c.max, 7);
}

#[test]
fn reset_restores_the_start() {
    let mut c = anna();
    c.hp.modify(-5);
    c.luck.modify(-10);
    c.dead = true;
    c.insane = true;
    c.reset();
    assert_eq!(c.hp.current, 13);
    assert_eq!(c.luck.current, 55);
    assert!(!c.dead && !c.insane);
}

#[test]
fn status_texts() {
    let mut c = anna();
    assert_eq!(c.name(), "`Anna`");
    assert_eq!(c.name_raw(), "Anna");
    assert_eq!(c.status_hp(), "❤️ **13**/13");
    assert_eq!(c.status_hp_raw(), "13/13");
    c.major_wound = true;
    assert_eq!(c.status_hp_raw(), "13/13 🤕");
    c.dead = true;
    assert_eq!(c.status_hp(), "❤️ **13**/13 💀");
    assert_eq!(c.status_sanity(), "🧠 **45**");
    c.fragile_mind = true;
    assert_eq!(c.status_sanity_raw(), "45 😨");
    c.insane = true;
    assert_eq!(c.status_sanity_raw(), "45 🤯");
    assert_eq!(c.status_luck(), "🍀 **55**");
    assert_eq!(c.status_luck_raw(), "55");
    assert_eq!(c.status_magic(), "🪄 **9**/9");
    assert_eq!(c.status_magic_raw(), "9/9");
    let c = anna();
    assert_eq!(c.status(), "❤️ **13**/13\n🧠 **45**\n🍀 **55**\n🪄 **9**/9");
    assert_eq!(c.status_one_line(), "❤️ **13**/13\t🧠 **45**\t🍀 **55**\t🪄 **9**/9");
    assert_eq!(c.status_named(), "`Anna`\n❤️ **13**/13\n🧠 **45**\n🍀 **55**\n🪄 **9**/9");
}

#[test]
fn damage_modifier_in_both_languages() {
    let mut c = anna();
    c.build = 3;
    assert_eq!(c.damage_modifier(LocaleLang::English), "+2d6");
    assert_eq!(c.damage_modifier(LocaleLang::Polski), "+2k6");
    c.build = -1;
    assert_eq!(c.damage_modifier(LocaleLang::Polski), "-1");
}

#[test]
fn items_add_remove_and_text() {
    let mut i = Item::new("Rope", 3, Some("m"));
    i.add(2);
    assert_eq!(i.quantity, 5);
    let taken = i.remove(7).ok().unwrap();
    assert_eq!(taken.quantity, 5);
    assert_eq!(i.quantity, 0);
    let mut j = Item::new("Match", 10, None);
    let t = j.remove(4).ok().unwrap();
    assert_eq!(t.quantity + j.quantity, 10);
    assert_eq!(j.to_string(LocaleLang::English), "Match [6 pcs]");
    assert_eq!(j.to_string(LocaleLang::Polski), "Match [6 szt]");
    assert_eq!(Item::new("Lamp", 1, None).to_string(LocaleLang::English), "Lamp");
    assert_eq!(Item::new("Rope", 2, Some("m")).to_string(LocaleLang::English), "Rope [2 m]");
    assert_eq!(ItemError::CantRemove(3).to_string(LocaleLang::English), "Can't remove 3 units.");
    assert_eq!(ItemError::CantRemove(3).to_string(LocaleLang::Polski), "Nie można usunąć 3 jednostek.");
}

#[test]
fn ammo_reload_shoot_add_remove() {
    let mut a = Ammo::new(6, 10);
    assert_eq!(a.reload().ok(), Some(WeaponOk::Loaded(6)));
    assert_eq!(a.clip_rounds + a.loose_rounds, 10);
    assert_eq!(a.reload().err(), Some(WeaponError::NoNeedToReload));
    assert_eq!(a.shoot_rounds(2).ok(), Some(WeaponOk::Shot(2)));
    assert_eq!(a.shoot_rounds(5).err(), Some(WeaponError::CantShootRounds(5)));
    assert_eq!(a.reload().ok(), Some(WeaponOk::Loaded(2)));
    assert_eq!(a.loose_rounds, 2);
    assert_eq!(a.add_rounds(3), WeaponOk::AddedRounds(3));
    assert_eq!(a.loose_rounds, 5);
    assert_eq!(a.remove_rounds(7).ok(), Some(WeaponOk::RemovedRounds(7)));
    assert_eq!(a.loose_rounds, 0);
    assert_eq!(a.clip_rounds, 4);
    assert_eq!(a.remove_rounds(9).err(), Some(WeaponError::CantRemoveRounds(9)));
    let mut e = Ammo::new(6, 0);
    assert_eq!(e.reload().err(), Some(WeaponError::NoAmmo));
    assert_eq!(e.shoot_rounds(1).err(), Some(WeaponError::ClipEmpty));
}

fn pistol() -> Weapon {
    let rds = RangeDamage::from(
        vec!["10".to_string(), "20".to_string(), "-".to_string()],
        vec!["1d10".to_string(), "1d8".to_string(), "1d4".to_string()],
    )
    .ok()
    .unwrap();
    Weapon::new(".38 revolver", rds, "1 (3)", false, true, "Firearms (Handgun)", Some(100), Some(Ammo::new(6, 12)))
}

#[test]
fn weapon_damage_by_distance() {
    let w = pistol();
    assert_eq!(w.range_dmgs[0].range, Some(10));
    assert_eq!(w.range_dmgs[2].range, None);
    assert_eq!(w.damage_dice(LocaleLang::English, None), "1d10");
    assert_eq!(w.damage_dice(LocaleLang::English, Some(5)), "1d10");
    assert_eq!(w.damage_dice(LocaleLang::English, Some(10)), "1d10");
    assert_eq!(w.damage_dice(LocaleLang::English, Some(15)), "1d10");
    assert_eq!(w.damage_dice(LocaleLang::English, Some(25)), "1d8");
    assert_eq!(w.damage_dice(LocaleLang::Polski, Some(25)), "1k8");
    assert_eq!(w.damage(LocaleLang::Polski), "1k10");
    assert_eq!(w.attacks, vec![Attack::new(1, AttacksModifier::NoPenalty), Attack::new(3, AttacksModifier::OnePenaltyToAll)]);
}

#[test]
fn weapon_ammo_actions() {
    let mut w = pistol();
    assert_eq!(w.use_ammo(1).err(), Some(WeaponError::ClipEmpty));
    assert_eq!(w.reload().ok(), Some(WeaponOk::Loaded(6)));
    assert_eq!(w.use_ammo(2).ok(), Some(WeaponOk::Shot(2)));
    assert_eq!(w.add_ammo(4).ok(), Some(WeaponOk::AddedRounds(4)));
    assert_eq!(w.remove_ammo(1).ok(), Some(WeaponOk::RemovedRounds(1)));
    w.apply_half_dm();
    assert!(w.half_damage_modifier);
    let mut fist = anna().weapons.remove(0);
    assert_eq!(fist.reload().err(), Some(WeaponError::DoesntUseAmmo));
    assert_eq!(fist.use_ammo(1).err(), Some(WeaponError::DoesntUseAmmo));
    assert_eq!(fist.add_ammo(1).err(), Some(WeaponError::DoesntUseAmmo));
    assert_eq!(fist.remove_ammo(1).err(), Some(WeaponError::DoesntUseAmmo));
}

#[test]
fn weapon_messages() {
    assert_eq!(WeaponOk::Hit.to_string(LocaleLang::English), "Hit!");
    assert_eq!(WeaponOk::Miss.to_string(LocaleLang::Polski), "Pudło!");
    assert_eq!(WeaponOk::CriticalHit.to_string(LocaleLang::English), "Critical Hit!");
    assert_eq!(WeaponOk::Loaded(3).to_string(LocaleLang::Polski), "Załadowano pocisków: 3");
    assert_eq!(WeaponOk::Shot(2).to_string(LocaleLang::English), "Shot rounds: 2");
    assert_eq!(WeaponOk::AddedRounds(2).to_string(LocaleLang::English), "Added rounds: 2");
    assert_eq!(WeaponOk::RemovedRounds(2).to_string(LocaleLang::Polski), "Odjęto pocisków: 2");
    assert_eq!(WeaponError::DoesntUseAmmo.to_string(LocaleLang::English), "This weapon doesn't use ammo.");
    assert_eq!(WeaponError::CantRemoveRounds(4).to_string(LocaleLang::Polski), "Nie można usunąć 4 pocisków.");
    assert_eq!(WeaponError::CantShootRounds(4).to_string(LocaleLang::English), "Can't shoot 4 rounds");
    assert_eq!(WeaponError::ClipEmpty.to_string(LocaleLang::English), "Empty clip!");
    assert_eq!(WeaponError::NoAmmo.to_string(LocaleLang::Polski), "Brak amunicji!");
    assert_eq!(WeaponError::NoNeedToReload.to_string(LocaleLang::English), "No need to reload.");
    assert_eq!(RangeDamageError::RangeDamageDiffers.to_string(LocaleLang::English), "Ranges and Damages lengths differ!");
}

#[test]
fn attacks_and_ranges() {
    assert_eq!(attacks_from("1").ok(), Some(vec![Attack::new(1, AttacksModifier::NoPenalty)]));
    assert_eq!(attacks_from("1 or 2").ok().unwrap().len(), 2);
    assert_eq!(attacks_from("1 lub 2").ok().unwrap().len(), 2);
    assert_eq!(attacks_from("2").ok().unwrap()[1], Attack::new(2, AttacksModifier::NoPenalty));
    assert_eq!(attacks_from("1(2)").ok().unwrap()[1], Attack::new(2, AttacksModifier::OnePenaltyToAll));
    assert_eq!(attacks_from("3").err(), Some(AttacksError::UnknownForm));
    assert_eq!(Attack::new(3, AttacksModifier::IncreasingPenalty).get_modifier(3), "---");
    assert_eq!(Attack::new(3, AttacksModifier::OnePenaltyToAll).get_modifier(3), "-");
    assert_eq!(Attack::new(3, AttacksModifier::NoPenalty).get_modifier(3), "");
    assert!(RangeDamage::from(vec!["1".to_string()], vec![]).is_err());
    let r = RangeDamage::from(vec!["+7".to_string(), "x".to_string(), "-3".to_string()], vec!["a".into(), "b".into(), "c".into()])
        .ok()
        .unwrap();
    assert_eq!(r[0].range, Some(7));
    assert_eq!(r[1].range, None);
    assert_eq!(r[2].range, Some(-3));
}

#[test]
fn first_letter_upper_case() {
    assert_eq!(to_uppercase_first_letter("weapon"), "Weapon");
    assert_eq!(to_uppercase_first_letter("broń"), "Broń");
    assert_eq!(to_uppercase_first_letter(""), "");
    assert_eq!(to_uppercase_first_letter("ßa"), "SSa");
}

#[test]
fn weapon_form_reads_ranges_and_damages() {
    let w = weapon_from_form(
        "Rifle", "2d6+4 / 1d6+2", "1", Some("50 m/ 1 00"), Some(98), false, Some(true), true, Some(5), Some(20), "Firearms",
    )
    .ok()
    .unwrap();
    assert_eq!(w.name, "Rifle");
    assert_eq!(w.range_dmgs.len(), 2);
    assert_eq!(w.range_dmgs[0].range, None);
    assert_eq!(w.range_dmgs[0].damage, "2d6+4");
    assert_eq!(w.range_dmgs[1].range, Some(100));
    assert_eq!(w.range_dmgs[1].damage, "1d6+2");
    assert!(w.half_damage_modifier);
    assert!(w.impaling);
    assert!(!w.apply_damage_modifier);
    assert_eq!(w.malfunction, Some(98));
    assert_eq!(w.ammo, Some(Ammo::new(5, 20)));
    assert!(!w.default);
}

#[test]
fn weapon_form_without_range_hits_at_any_distance() {
    let w = weapon_from_form("Club", "1k6", "1", None, None, true, None, false, Some(5), None, "Fighting (Brawl)")
        .ok()
        .unwrap();
    assert_eq!(w.range_dmgs.len(), 1);
    assert_eq!(w.range_dmgs[0].range, None);
    assert_eq!(w.range_dmgs[0].damage, "1k6");
    assert!(!w.half_damage_modifier);
    assert_eq!(w.ammo, None);
}

#[test]
fn weapon_form_polish_dice_in_ranges() {
    let w = weapon_from_form("Shotgun", "4d6/2d6/1d6", "1 or 2", Some("10/20/5k10"), None, false, Some(false), false, None, None, "Firearms")
        .ok()
        .unwrap();
    assert_eq!(w.range_dmgs.len(), 3);
    assert_eq!(w.range_dmgs[0].range, Some(10));
    assert_eq!(w.range_dmgs[1].range, Some(20));
    assert_eq!(w.range_dmgs[2].range, None);
    assert_eq!(w.attacks.len(), 2);
}

#[test]
fn weapon_form_refuses_mismatched_columns() {
    let r = weapon_from_form("Bow", "1d6/1d4", "1", Some("30"), None, false, None, true, None, None, "Archery");
    assert_eq!(r.err(), Some(RangeDamageError::RangeDamageDiffers));
    let r = weapon_from_form("Fist", "1d3", "1", None, None, true, None, false, None, None, "Fighting (Brawl)");
    assert!(r.is_ok());
}
