use cthulhu_roller::character::attributes::Attributes;
use cthulhu_roller::character::skill::{additional_skill_table, specialized_skill_table};
use cthulhu_roller::character::stats::{hp_impl, luck_impl, san_impl, LuckError};
use cthulhu_roller::character::Character;
use cthulhu_roller::locale::{locale_entry, locale_entry_by_str, LocaleEntry, LocaleLang, LocaleTag};
use cthulhu_roller::roller::battle::{Battle, CharacterInitiative};
use cthulhu_roller::roller::croll::CrollResult;
use cthulhu_roller::roller::improve_roll::improve_skill;
use cthulhu_roller::roller::roll::{query_bound, roll_with_dice};
use cthulhu_roller::roller::success_level::{SuccessLevel, SuccessLevelError};
use cthulhu_roller::suggest::{ascii_suggestions, contains, suggestions};
use cthulhu_roller::user_data::{command_help, find_command, help_text, CommandCategory, CommandMeta};

fn anna() -> Character {
    Character::new("Anna", Attributes::new(50, 60, 70, 40, 55, 65, 45, 80), 55, None)
}

fn fighter(name: &str, threshold: i32, result: i32) -> CharacterInitiative {
    CharacterInitiative { croll_result: CrollResult::new("50", threshold, result, result % 10, vec![result / 10], None), name: name.to_string() }
}

#[test]
fn constant_changes_of_hit_points_sanity_and_luck() {
    let mut a = anna();
    let max = a.hp.max;
    let m = hp_impl(&mut a, "-3", LocaleLang::English).ok().unwrap();
    assert_eq!(a.hp.current, max - 3);
    assert!(m.description.starts_with("❤️ **-3** (-3)\n"));
    let m = san_impl(&mut a, "-2", LocaleLang::English).ok().unwrap();
    assert_eq!(a.sanity.current, 43);
    assert!(m.description.starts_with("🧠 **-2** (-2)\n"));
    assert!(luck_impl(&mut a, "-1").is_ok());
    assert_eq!(a.luck.current, 54);
    assert!(matches!(luck_impl(&mut a, "-99"), Err(LuckError::CantSpendLuck)));
    assert_eq!(a.luck.current, 54);
    assert!(matches!(luck_impl(&mut a, "1d99999999999"), Err(LuckError::Roll(_))));
}

#[test]
fn skill_tables() {
    let extra = additional_skill_table();
    assert_eq!(extra[0], (LocaleTag::AnimalHandling, 1));
    assert_eq!(extra.len(), 7);
    let special = specialized_skill_table();
    assert_eq!(special[0], (LocaleTag::ArtCraft, 5));
    assert_eq!(special[1], (LocaleTag::Fighting, 10));
}

#[test]
fn languages_and_entries() {
    assert_eq!(LocaleLang::from_name(" P l "), LocaleLang::Polski);
    assert_eq!(LocaleLang::from_name("Polski"), LocaleLang::Polski);
    assert_eq!(LocaleLang::from_name("en"), LocaleLang::English);
    let (tag, entry) = locale_entry(LocaleTag::Swim, "Swim", "Pływanie");
    assert_eq!(tag, LocaleTag::Swim);
    assert_eq!(entry.to_enum(), Some(LocaleTag::Swim));
    assert_eq!(LocaleEntry::new("no such", "text").to_enum(), None);
    assert_eq!(locale_entry_by_str("pływANIE").map(|e| e.en), Some("Swim".to_string()));
    assert!(locale_entry_by_str("nothing like it").is_none());
}

#[test]
fn levels_from_tags_and_texts() {
    assert_eq!(SuccessLevel::HardSuccess.to_default_string(), "⭐⭐ Hard Success");
    assert_eq!(SuccessLevel::from_tag(LocaleTag::HardSuccess), Ok(SuccessLevel::HardSuccess));
    assert_eq!(SuccessLevel::from_tag(LocaleTag::CriticalSuccess), Err(SuccessLevelError::NotALevel));
    assert_eq!(SuccessLevel::from_text("⭐ success"), Ok(SuccessLevel::Success));
    assert_eq!(SuccessLevel::from_text("Swim"), Err(SuccessLevelError::NotALevel));
    assert_eq!(SuccessLevel::from_text("none at all"), Err(SuccessLevelError::NotALevel));
}

#[test]
fn rounds_of_a_fight() {
    let mut b = Battle::new(vec![fighter("Anna", 60, 5), fighter("Bob", 50, 40), fighter("Carl", 40, 90)]);
    assert_eq!(b.characters[0].name, "Anna");
    assert_eq!(b.current_position, 0);
    b.next_round();
    assert_eq!(b.current_position, 1);
    b.previous_round();
    b.previous_round();
    assert_eq!(b.current_position, 2);
    b.next_round();
    assert_eq!(b.current_position, 0);
    assert_eq!(b.add_characters(&[fighter("Dora", 70, 20), fighter("Bob", 10, 10)]).err(), Some("Character `Bob` already in battle!".to_string()));
    assert_eq!(b.characters.len(), 4);
    assert!(b.add_characters(&[fighter("Eve", 30, 60)]).is_ok());
    assert_eq!(b.characters.len(), 5);
    assert_eq!(b.remove_character("Zed").err(), Some("Character `Zed` not found.".to_string()));
    assert!(b.remove_character("Eve").is_ok());
    assert_eq!(b.characters.len(), 4);
}

#[test]
fn improvement_tests_and_fixed_dice() {
    for _ in 0..20 {
        let r = improve_skill(50);
        assert!((1..=100).contains(&r.result));
        assert_eq!(r.success_level == SuccessLevel::Success, r.result > 50);
    }
    let r = roll_with_dice("2d6+1", &vec![vec![3, 4], vec![]]).ok().unwrap();
    assert_eq!(r.result_real(), 8);
    assert_eq!(r.rolls, vec![3, 4]);
    assert_eq!(query_bound("2d6+1"), Some(15));
    assert_eq!(query_bound("1d99999999999"), Some(0));
}

#[test]
fn help_of_commands() {
    let roll = CommandMeta { category: CommandCategory::Basic, short_desc: "Roll dice", long_desc: "3d6x5+1" };
    let sheet = CommandMeta { category: CommandCategory::Character, short_desc: "Show a sheet", long_desc: "" };
    let cmds = vec![("roll".to_string(), Some(roll)), ("sheet".to_string(), Some(sheet)), ("about".to_string(), None)];
    assert_eq!(find_command(&cmds, "ROLL"), Some(0));
    assert_eq!(find_command(&cmds, "levels"), None);
    assert_eq!(command_help("roll", Some(roll)), "`/roll`\n\nRoll dice\n\n3d6x5+1");
    assert_eq!(command_help("about", None), "`/about`\n\n\n\n");
    let h = help_text(&cmds, CommandCategory::Basic);
    assert!(h.starts_with("**Basic Commands**\n```text\n"));
    assert!(h.contains("/roll"));
    assert!(h.contains("Roll dice"));
    assert!(!h.contains("/sheet"));
    assert!(h.ends_with("```"));
    assert_eq!(LocaleLang::Polski.name(), "polski");
}

fn texts(v: &[&str]) -> Vec<String> {
    v.iter().map(|s| s.to_string()).collect()
}

#[test]
fn suggestions_while_typing() {
    let names = texts(&["Spot Hidden", "Swim", "Stealth", "spot hidden", "Listen"]);
    assert_eq!(suggestions(&names, "sP", None, true), texts(&["Spot Hidden", "spot hidden"]));
    assert_eq!(suggestions(&names, "s", Some(2), false), texts(&["Spot Hidden", "Swim"]));
    assert_eq!(suggestions(&names, "zzz", None, false), Vec::<String>::new());
    assert_eq!(suggestions(&texts(&["b", "a", "b"]), "", None, true), texts(&["a", "b"]));
    assert_eq!(suggestions(&texts(&["b", "a", "b"]), "", None, false), texts(&["a", "b", "b"]));
    assert_eq!(suggestions(&texts(&["Źródło", "Rzeka"]), "ŹR", None, false), texts(&["Źródło"]));
    assert_eq!(ascii_suggestions(&texts(&["Bob", "anna", "Carl"]), "A"), texts(&["Carl", "anna"]));
    assert!(contains("abcabd", "abd"));
    assert!(!contains("abc", "abcd"));
    assert!(contains("abc", ""));
}
