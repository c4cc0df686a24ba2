//! The decisions of play: skill tests that mark skills to improve, luck
//! spent to reach a better level, pushed rolls, attacks that use ammunition
//! or jam, and damage rolls.
use crate::character::weapon::{localised_dice, spec_dashes, Attack, AttacksModifier, spec_damage_at, spec_localised_dice, spec_shoot, spec_weapon_error_text, spec_weapon_ok_text, Weapon, WeaponError, WeaponOk, WeaponView};
use crate::character::attributes::lemma_attribute_index;
use crate::character::skill::SkillView;
use crate::character::{
    find_skill, spec_attributes_set, spec_clamp, spec_damage_bonus, spec_find_skill, spec_set_attribute, spec_skill_matches, spec_skill_views, Character,
    CharacterVariable, CharacterView, SkillMatch,
};
use crate::locale::{locale_text_by_tag_lang, spec_entry_equals, LocaleLang, LocaleTag};
use crate::message::{spec_bold, spec_croll_message, spec_roll_total, spec_tag_text, MessageContent, MessageView};
use crate::roller::croll::{croll_query_parts, croll_with, spec_croll, spec_croll_draws, spec_croll_query, spec_success_level, spec_valid_croll_dice, CrollResult, CrollView};
use crate::locale::spec_remove_spaces;
use crate::roller::modifier_dice::ModifierDiceType;
use crate::roller::success_level::{spec_level_tag, spec_level_threshold, spec_next_level, spec_rank, SuccessLevel};
use crate::roller::dice_rng::DiceRng;
use crate::roller::query::{spec_pow10, TermValue};
use crate::roller::roll::{
    get_roll_max, merge_roll_results, roll_die, roll_impl, spec_concat_draws, spec_query_draws, spec_rolled, spec_dice_fit, spec_max_view, spec_merged, spec_outcome_views,
    spec_query_bound, spec_query_rollable, spec_result_views, spec_results_abs_sum, spec_roll_parse, RollError, RollResult,
    RollResultView,
};
use crate::sheet::spec_join;
use crate::text::{push_int, spec_int_str, spec_nat_str, str_equal};
use crate::utils::{lemma_first_index, lemma_first_index_at, lemma_first_index_full, lemma_first_index_step, spec_first_index};
use vstd::prelude::*;

verus! {

/// A test marks its skill to improve: the skill can improve, the test
/// succeeded, and no bonus dice helped.
pub open spec fn spec_marks_improvement(improvable: bool, c: CrollView) -> bool {
    &&& improvable
    &&& spec_rank(c.success_level) >= spec_rank(SuccessLevel::Success)
    &&& match c.modifier_dice {
        None => true,
        Some(m) => m.dice_type == ModifierDiceType::Penalty,
    }
}

/// Whether a test marks its skill to improve.
pub fn marks_improvement(improvable: bool, croll_result: &CrollResult) -> (r: bool)
    ensures
        r == spec_marks_improvement(improvable, croll_result@),
{
    if !improvable || croll_result.success_level.rank() < SuccessLevel::Success.rank() {
        return false;
    }
    match croll_result.modifier_dice {
        None => true,
        Some(m) => m.dice_type == ModifierDiceType::Penalty,
    }
}

/// The player may push the roll or spend luck: the test reached neither an
/// extreme success nor a critical failure.
pub open spec fn spec_offers_choice(l: SuccessLevel) -> bool {
    spec_rank(l) < spec_rank(SuccessLevel::ExtremeSuccess) && l != SuccessLevel::CriticalFailure
}

/// Whether the player may push the roll or spend luck.
pub fn offers_choice(l: SuccessLevel) -> (r: bool)
    ensures
        r == spec_offers_choice(l),
{
    l.rank() < SuccessLevel::ExtremeSuccess.rank() && l != SuccessLevel::CriticalFailure
}

/// A failed test may be pushed: it failed, but not critically.
pub open spec fn spec_offers_push(l: SuccessLevel) -> bool {
    spec_rank(l) < spec_rank(SuccessLevel::Success) && l != SuccessLevel::CriticalFailure
}

/// Whether the player may push the roll.
pub fn offers_push(l: SuccessLevel) -> (r: bool)
    ensures
        r == spec_offers_push(l),
{
    l.rank() < SuccessLevel::Success.rank() && l != SuccessLevel::CriticalFailure
}

/// A better level that luck can buy, what it costs, and whether the
/// character has that much luck.
#[derive(Debug, Clone, Copy, PartialEq, Eq, Structural)]
pub struct LuckOffer {
    pub level: SuccessLevel,
    pub cost: i32,
    pub affordable: bool,
}

/// The levels that luck can buy after `from`, cheapest first, while the
/// cost is not negative and changes.
pub open spec fn spec_luck_offers(from: SuccessLevel, prev: int, result: int, threshold: int, luck: int) -> Seq<LuckOffer>
    decreases 5 - spec_rank(from),
{
    match spec_next_level(from) {
        None => Seq::<LuckOffer>::empty(),
        Some(l) => {
            let d = result - spec_level_threshold(l, threshold);
            if d < 0 || d == prev {
                Seq::<LuckOffer>::empty()
            } else {
                seq![LuckOffer { level: l, cost: d as i32, affordable: d <= luck }]
                    + spec_luck_offers(l, d, result, threshold, luck)
            }
        },
    }
}

proof fn lemma_level_thresholds_ordered(threshold: int)
    requires
        threshold >= 1,
    ensures
        spec_level_threshold(SuccessLevel::HardSuccess, threshold) <= spec_level_threshold(SuccessLevel::Success, threshold),
        spec_level_threshold(SuccessLevel::ExtremeSuccess, threshold) <= spec_level_threshold(SuccessLevel::HardSuccess, threshold),
{
    assert(threshold / 2 <= threshold) by (nonlinear_arith)
        requires threshold >= 1;
    assert(threshold / 5 <= threshold / 2) by (nonlinear_arith)
        requires threshold >= 1;
}

proof fn lemma_offers_after_level(from: SuccessLevel, prev: int, result: int, threshold: int, luck: int)
    requires
        threshold >= 1,
        result <= i32::MAX,
        from == SuccessLevel::Success || from == SuccessLevel::HardSuccess || from == SuccessLevel::ExtremeSuccess,
        prev == result - spec_level_threshold(from, threshold),
    ensures
        ({
            let s = spec_luck_offers(from, prev, result, threshold, luck);
            forall|i: int, j: int| 0 <= i < j < s.len() ==> (#[trigger] s[i]).cost < (#[trigger] s[j]).cost
        }),
        forall|i: int| 0 <= i < spec_luck_offers(from, prev, result, threshold, luck).len()
            ==> (#[trigger] spec_luck_offers(from, prev, result, threshold, luck)[i]).cost > prev,
    decreases 5 - spec_rank(from),
{
    match spec_next_level(from) {
        None => {},
        Some(l) => {
            let d = result - spec_level_threshold(l, threshold);
            lemma_level_thresholds_ordered(threshold);
            if !(d < 0 || d == prev) {
                lemma_offers_after_level(l, d, result, threshold, luck);
                let rest = spec_luck_offers(l, d, result, threshold, luck);
                let s = spec_luck_offers(from, prev, result, threshold, luck);
                assert(s == seq![LuckOffer { level: l, cost: d as i32, affordable: d <= luck }] + rest);
                assert(d > prev);
                assert(0 <= d <= i32::MAX);
                assert forall|i: int| 0 <= i < s.len() implies (#[trigger] s[i]).cost > prev by {
                    if i == 0 {
                        assert(s[0].cost == d);
                    } else {
                        assert(s[i] == rest[i - 1]);
                    }
                }
                assert forall|i: int, j: int| 0 <= i < j < s.len() implies (#[trigger] s[i]).cost < (#[trigger] s[j]).cost by {
                    assert(s[j] == rest[j - 1]);
                    if i > 0 {
                        assert(s[i] == rest[i - 1]);
                    }
                }
            }
        },
    }
}

/// Each level that luck can buy costs more than the one before it, for a
/// skill of positive value.
pub proof fn lemma_luck_offers_increasing(from: SuccessLevel, result: int, threshold: int, luck: int)
    requires
        threshold >= 1,
        result <= i32::MAX,
    ensures
        ({
            let s = spec_luck_offers(from, 0, result, threshold, luck);
            forall|i: int, j: int| 0 <= i < j < s.len() ==> (#[trigger] s[i]).cost < (#[trigger] s[j]).cost
        }),
{
    match spec_next_level(from) {
        None => {},
        Some(l) => {
            let d = result - spec_level_threshold(l, threshold);
            if !(d < 0 || d == 0) {
                lemma_offers_after_level(l, d, result, threshold, luck);
                let rest = spec_luck_offers(l, d, result, threshold, luck);
                let s = spec_luck_offers(from, 0, result, threshold, luck);
                assert(s == seq![LuckOffer { level: l, cost: d as i32, affordable: d <= luck }] + rest);
                assert forall|i: int, j: int| 0 <= i < j < s.len() implies (#[trigger] s[i]).cost < (#[trigger] s[j]).cost by {
                    assert(s[j] == rest[j - 1]);
                    if i > 0 {
                        assert(s[i] == rest[i - 1]);
                    }
                }
            }
        },
    }
}

/// Luck can buy each level up from a test without overflow.
pub open spec fn spec_costs_fit(result: int, threshold: int) -> bool {
    &&& threshold > i32::MIN
    &&& i32::MIN < result - spec_level_threshold(SuccessLevel::Success, threshold) <= i32::MAX
    &&& i32::MIN < result - spec_level_threshold(SuccessLevel::HardSuccess, threshold) <= i32::MAX
    &&& i32::MIN < result - spec_level_threshold(SuccessLevel::ExtremeSuccess, threshold) <= i32::MAX
}

/// How an offer of luck is shown: its cost, then the level it buys.
pub open spec fn spec_luck_offer_label(lang: LocaleLang, o: LuckOffer) -> Seq<char> {
    "🍀"@ + spec_int_str(o.cost as int) + "➡️"@ + spec_tag_text(lang, spec_level_tag(o.level))
}

/// The label of an offer of luck.
pub fn luck_offer_label(lang: LocaleLang, offer: &LuckOffer) -> (r: String)
    ensures
        r@ == spec_luck_offer_label(lang, *offer),
{
    let mut s = String::from_str("🍀");
    push_int(&mut s, offer.cost as i64);
    s.append("➡️");
    let t = locale_text_by_tag_lang(lang, offer.level.to_locale_tag());
    s.append(t.as_str());
    s
}

/// The levels that luck can buy for a test, for a character with `luck` points.
pub fn luck_offers(croll_result: &CrollResult, luck: i32) -> (r: Vec<LuckOffer>)
    requires
        spec_costs_fit(croll_result.result as int, croll_result.threshold as int),
    ensures
        r@ == spec_luck_offers(croll_result.success_level, 0, croll_result.result as int, croll_result.threshold as int, luck as int),
{
    let result = croll_result.result();
    let threshold = croll_result.threshold;
    let ghost want = spec_luck_offers(croll_result.success_level, 0, result as int, threshold as int, luck as int);
    let mut out: Vec<LuckOffer> = Vec::new();
    let mut previous_delta: i32 = 0;
    let mut current = croll_result.success_level;
    loop
        invariant_except_break
            spec_costs_fit(result as int, threshold as int),
            want == out@ + spec_luck_offers(current, previous_delta as int, result as int, threshold as int, luck as int),
        ensures
            out@ == want,
        decreases 5 - spec_rank(current),
    {
        let ghost from = current;
        match current.next() {
            None => {
                assert(out@ =~= out@ + Seq::<LuckOffer>::empty());
                break;
            },
            Some(l) => {
                let luck_delta = l.delta(result, threshold);
                if luck_delta < 0 || previous_delta == luck_delta {
                    assert(out@ =~= out@ + Seq::<LuckOffer>::empty());
                    break;
                }
                let ghost old_prev = previous_delta;
                let ghost before = out@;
                previous_delta = luck_delta;
                out.push(LuckOffer { level: l, cost: luck_delta, affordable: luck_delta <= luck });
                assert(spec_luck_offers(from, old_prev as int, result as int, threshold as int, luck as int)
                    == seq![LuckOffer { level: l, cost: luck_delta, affordable: luck_delta <= luck }]
                    + spec_luck_offers(l, luck_delta as int, result as int, threshold as int, luck as int));
                assert(before + spec_luck_offers(from, old_prev as int, result as int, threshold as int, luck as int)
                    =~= out@ + spec_luck_offers(l, luck_delta as int, result as int, threshold as int, luck as int));
            },
        }
    }
    out
}

/// Spends luck to turn a test into one of `level`: the roll is lowered by
/// the cost and the luck points fall by it. Gives the cost.
pub fn spend_luck(croll_result: &mut CrollResult, luck: &mut CharacterVariable, level: SuccessLevel) -> (cost: i32)
    requires
        old(croll_result).threshold > i32::MIN,
        i32::MIN < old(croll_result).result - spec_level_threshold(level, old(croll_result).threshold as int) <= i32::MAX,
        old(luck).max >= 0,
        i32::MIN <= old(luck).current - (old(croll_result).result - spec_level_threshold(level, old(croll_result).threshold as int))
            <= i32::MAX,
    ensures
        cost == old(croll_result).result - spec_level_threshold(level, old(croll_result).threshold as int),
        final(croll_result)@ == (CrollView {
            result: spec_level_threshold(level, old(croll_result).threshold as int) as i32,
            success_level: level,
            ..old(croll_result)@
        }),
        *final(luck) == (CharacterVariable {
            current: spec_clamp(old(luck).current - cost, 0, old(luck).max as int) as i32,
            ..*old(luck)
        }),
{
    let cost = level.delta(croll_result.result(), croll_result.threshold);
    let r = croll_result.result() - cost;
    croll_result.set_result(r);
    croll_result.success_level = level;
    luck.modify(-cost);
    cost
}

/// Luck spent down to a level's roll reaches that level: a test that rolls
/// exactly the highest roll of a success, a hard or an extreme success is
/// one, away from the rolls of criticals and fumbles.
pub proof fn lemma_luck_buys_level(l: SuccessLevel, threshold: int)
    requires
        l == SuccessLevel::Success || l == SuccessLevel::HardSuccess || l == SuccessLevel::ExtremeSuccess,
        2 <= spec_level_threshold(l, threshold) <= 95,
    ensures
        spec_success_level(spec_level_threshold(l, threshold), threshold) == l,
{
    assert(threshold >= 2);
}

/// The message of a test after luck was spent on it.
pub open spec fn spec_luck_spent_message(
    lang: LocaleLang,
    c: CrollView,
    skill_name: Seq<char>,
    character_name: Seq<char>,
    cost: int,
    remaining: int,
) -> MessageView {
    let m = spec_croll_message(lang, c, false, true);
    MessageView {
        title: m.title + "\n"@ + skill_name + " (`"@ + character_name + "`)"@ + " (🍀)"@,
        description: m.description + "\n\n🍀-"@ + spec_int_str(cost) + " ("@ + spec_int_str(remaining) + ")"@,
        ..m
    }
}

/// The message of a test after luck was spent on it.
pub fn luck_spent_message(
    lang: LocaleLang,
    croll_result: &CrollResult,
    skill_name: &str,
    character_name: &str,
    cost: i32,
    remaining: i32,
) -> (r: MessageContent)
    ensures
        r@ == spec_luck_spent_message(lang, croll_result@, skill_name@, character_name@, cost as int, remaining as int),
{
    let mut mc = MessageContent::from_croll_result(lang, croll_result, false, true)
        .with_skill_name(skill_name)
        .with_character_name(character_name);
    mc.title.append(" (🍀)");
    mc.description.append("\n\n🍀-");
    push_int(&mut mc.description, cost as i64);
    mc.description.append(" (");
    push_int(&mut mc.description, remaining as i64);
    mc.description.append(")");
    mc
}

/// What a pushed roll tells: consequences follow a failure, luck held otherwise.
pub open spec fn spec_push_roll_note(lang: LocaleLang, l: SuccessLevel) -> Seq<char> {
    if spec_rank(l) < spec_rank(SuccessLevel::Success) {
        "\n\n"@ + spec_tag_text(lang, LocaleTag::PushRoll) + ": ***"@ + spec_tag_text(lang, LocaleTag::PrepareForTheConsequences) + "***"@
    } else {
        "\n\n"@ + spec_tag_text(lang, LocaleTag::PushRoll) + ": *"@ + spec_tag_text(lang, LocaleTag::YouGotLuckyThisTIme) + "*"@
    }
}

/// What a pushed roll tells, by its level.
pub fn push_roll_note(lang: LocaleLang, l: SuccessLevel) -> (r: String)
    ensures
        r@ == spec_push_roll_note(lang, l),
{
    let mut s = String::from_str("\n\n");
    s.append(locale_text_by_tag_lang(lang, LocaleTag::PushRoll).as_str());
    if l.rank() < SuccessLevel::Success.rank() {
        s.append(": ***");
        s.append(locale_text_by_tag_lang(lang, LocaleTag::PrepareForTheConsequences).as_str());
        s.append("***");
    } else {
        s.append(": *");
        s.append(locale_text_by_tag_lang(lang, LocaleTag::YouGotLuckyThisTIme).as_str());
        s.append("*");
    }
    s
}

/// The message with the note that the skill is now marked to improve,
/// where the test marks it and it was not marked before.
pub fn with_skill_marked(mc: MessageContent, lang: LocaleLang, already_marked: bool, mark_to_improve: bool) -> (r: MessageContent)
    ensures
        r@ == (if !already_marked && mark_to_improve {
            MessageView { description: mc@.description + "\n"@ + spec_tag_text(lang, LocaleTag::SkillMarked), ..mc@ }
        } else {
            mc@
        }),
{
    let mut m = mc;
    if !already_marked && mark_to_improve {
        m.description.append("\n");
        m.description.append(locale_text_by_tag_lang(lang, LocaleTag::SkillMarked).as_str());
    }
    m
}

/// Whether a skill test marks its skill once the player has chosen:
/// spending luck never marks it; otherwise the roll that stands, the pushed
/// one where the roll was pushed, decides as `marks_improvement` does.
pub open spec fn spec_marks_after_choice(improvable: bool, standing: CrollView, spent_luck: bool) -> bool {
    !spent_luck && spec_marks_improvement(improvable, standing)
}

/// Whether a skill test marks its skill once the player has chosen.
pub fn marks_after_choice(improvable: bool, standing: &CrollResult, spent_luck: bool) -> (r: bool)
    ensures
        r == spec_marks_after_choice(improvable, standing@, spent_luck),
{
    if spent_luck {
        false
    } else {
        marks_improvement(improvable, standing)
    }
}

/// Marks the character's skill named `skill_name` to improve where `mark`
/// asks for it; a marked skill stays marked, and nothing else changes.
/// Gives whether the character has such a skill.
pub fn mark_skill(character: &mut Character, skill_name: &str, mark: bool) -> (found: bool)
    ensures
        found == spec_find_skill(old(character)@.skills, SkillMatch::Name, skill_name@) is Some,
        match spec_find_skill(old(character)@.skills, SkillMatch::Name, skill_name@) {
            Some(i) => final(character)@ == (CharacterView {
                skills: old(character)@.skills.update(
                    i,
                    SkillView { to_improve: old(character)@.skills[i].to_improve || mark, ..old(character)@.skills[i] },
                ),
                ..old(character)@
            }),
            None => final(character)@ == old(character)@,
        },
{
    let ghost c0 = character@;
    match find_skill(&character.skills, SkillMatch::Name, skill_name) {
        Some(i) => {
            proof {
                lemma_first_index(c0.skills, spec_skill_matches(SkillMatch::Name, skill_name@));
            }
            let mut skill = character.skills[i].clone();
            if mark {
                skill.to_improve = true;
            }
            let ghost sv = skill@;
            character.skills.set(i, skill);
            assert(character@.skills =~= c0.skills.update(
                i as int,
                SkillView { to_improve: c0.skills[i as int].to_improve || mark, ..c0.skills[i as int] },
            ));
            true
        },
        None => false,
    }
}

/// The first of a weapon's ways of attacking that makes `count` attacks.
pub open spec fn spec_attack_with_count(count: i32) -> spec_fn(Attack) -> bool {
    |a: Attack| a.count == count
}

/// The position of the first way of attacking that makes `count` attacks.
pub fn find_attack(weapon: &Weapon, count: i32) -> (r: Option<usize>)
    ensures
        match r {
            Some(i) => spec_first_index(weapon@.attacks, spec_attack_with_count(count)) == Some(i as int)
                && i < weapon@.attacks.len(),
            None => spec_first_index(weapon@.attacks, spec_attack_with_count(count)) is None,
        },
{
    let ghost s = weapon@.attacks;
    let ghost p = spec_attack_with_count(count);
    let mut i: usize = 0;
    while i < weapon.attacks.len()
        invariant
            s == weapon@.attacks,
            s == weapon.attacks@,
            p == spec_attack_with_count(count),
            i <= s.len(),
            spec_first_index(s.take(i as int), p) is None,
        decreases s.len() - i,
    {
        proof {
            lemma_first_index_step(s, p, i as int);
        }
        if weapon.attacks[i].count == count {
            proof {
                lemma_first_index(s.take(i as int), p);
                assert forall|j: int| 0 <= j < i implies !p(#[trigger] s[j]) by {
                    assert(s.take(i as int)[j] == s[j]);
                }
                lemma_first_index_at(s, p, i as int);
            }
            return Some(i);
        }
        i += 1;
    }
    proof {
        lemma_first_index_full(s, p);
    }
    None
}

/// The penalty marks of the `n`-th attack of a way of attacking.
pub open spec fn spec_attack_dice(a: Attack, n: int) -> Seq<char> {
    match a.modifier {
        AttacksModifier::NoPenalty => Seq::<char>::empty(),
        AttacksModifier::OnePenaltyToAll => seq!['-'],
        AttacksModifier::IncreasingPenalty => spec_dashes(n as nat),
    }
}

/// The skill test query of the `n`-th attack: the skill's value, the
/// player's bonus and penalty dice, then the attack's own penalty marks.
pub open spec fn spec_attack_query(value: int, asked: Option<Seq<char>>, a: Attack, n: int) -> Seq<char> {
    spec_int_str(value) + (match asked {
        Some(d) => d,
        None => Seq::<char>::empty(),
    }) + spec_attack_dice(a, n)
}

/// The skill test query of an attack.
pub fn attack_croll_query(skill_value: i32, modifier_dice: Option<&str>, attack: &Attack, attack_number: i32) -> (r: String)
    requires
        attack.modifier == AttacksModifier::IncreasingPenalty ==> attack_number >= 0,
    ensures
        r@ == spec_attack_query(
            skill_value as int,
            match modifier_dice {
                Some(d) => Some(d@),
                None => None,
            },
            *attack,
            attack_number as int,
        ),
{
    let mut q = String::new();
    push_int(&mut q, skill_value as i64);
    match modifier_dice {
        Some(d) => {
            q.append(d);
        },
        None => {},
    }
    let m = attack.get_modifier(attack_number);
    q.append(m.as_str());
    q
}

/// Fires a weapon once: one round from its clip, or a hit for a weapon
/// without ammunition.
pub fn fire_weapon(weapon: &mut Weapon) -> (r: Result<WeaponOk, WeaponError>)
    requires
        old(weapon).ammo matches Some(a) ==> a.clip_rounds > i32::MIN,
    ensures
        match old(weapon).ammo {
            Some(a) => final(weapon)@ == (WeaponView { ammo: Some(spec_shoot(a, 1).0), ..old(weapon)@ })
                && r == spec_shoot(a, 1).1,
            None => final(weapon)@ == old(weapon)@ && r == Ok::<WeaponOk, WeaponError>(WeaponOk::Hit),
        },
{
    match weapon.ammo {
        Some(_) => weapon.use_ammo(1),
        None => Ok(WeaponOk::Hit),
    }
}

/// The weapon jams: it has a malfunction number that the roll reaches.
pub open spec fn spec_jams(c: CrollView, malfunction: Option<i32>) -> bool {
    malfunction matches Some(m) && c.result >= m
}

/// The level of an attack: a failure when the weapon could not fire, a
/// critical failure when it jams, the test's level otherwise.
pub open spec fn spec_attack_level(c: CrollView, weapon_result: Result<WeaponOk, WeaponError>, malfunction: Option<i32>) -> SuccessLevel {
    if weapon_result is Err {
        SuccessLevel::Failure
    } else if spec_jams(c, malfunction) {
        SuccessLevel::CriticalFailure
    } else {
        c.success_level
    }
}

/// Settles an attack: sets its level, and tells whether it is the last
/// attack of the round (the weapon jammed) and whether the player may
/// spend luck on it.
pub fn resolve_attack(
    croll_result: &mut CrollResult,
    weapon_result: &Result<WeaponOk, WeaponError>,
    malfunction: Option<i32>,
) -> (r: (bool, bool))
    ensures
        final(croll_result)@ == (CrollView {
            success_level: spec_attack_level(old(croll_result)@, *weapon_result, malfunction),
            ..old(croll_result)@
        }),
        r.0 == (weapon_result is Ok && spec_jams(old(croll_result)@, malfunction)),
        r.1 == (weapon_result is Ok && !spec_jams(old(croll_result)@, malfunction)
            && spec_offers_choice(old(croll_result).success_level)),
{
    if weapon_result.is_err() {
        croll_result.success_level = SuccessLevel::Failure;
        return (false, false);
    }
    match malfunction {
        Some(m) => {
            if croll_result.result() >= m {
                croll_result.success_level = SuccessLevel::CriticalFailure;
                return (true, false);
            }
        },
        None => {},
    }
    (false, offers_choice(croll_result.success_level))
}

/// What an attack did, before the test: a hit, a critical hit, or a miss.
pub open spec fn spec_hit_text(lang: LocaleLang, l: SuccessLevel) -> Seq<char> {
    match l {
        SuccessLevel::Success | SuccessLevel::HardSuccess => spec_weapon_ok_text(WeaponOk::Hit, lang),
        SuccessLevel::ExtremeSuccess | SuccessLevel::CriticalSuccess => spec_bold(spec_weapon_ok_text(WeaponOk::CriticalHit, lang)),
        _ => spec_weapon_ok_text(WeaponOk::Miss, lang),
    }
}

/// The message of an attack: the weapon's refusal, or the test with the
/// jam and the rounds it takes, or the test after what it did.
pub open spec fn spec_attack_message(
    lang: LocaleLang,
    c: CrollView,
    weapon_result: Result<WeaponOk, WeaponError>,
    malfunction: Option<i32>,
    jammed_rounds: int,
    skill_name: Seq<char>,
    character_name: Seq<char>,
) -> MessageView {
    let m = spec_croll_message(lang, c, false, true);
    let m = MessageView { title: m.title + "\n"@ + skill_name + " (`"@ + character_name + "`)"@, ..m };
    match weapon_result {
        Err(e) => MessageView { description: spec_bold(spec_weapon_error_text(e, lang)), ..m },
        Ok(_) => if spec_jams(c, malfunction) {
            MessageView {
                description: m.description + "\n**"@ + spec_tag_text(lang, LocaleTag::WeaponJammed) + "**\n"@
                    + spec_tag_text(lang, LocaleTag::Rolls) + ": **"@ + spec_int_str(jammed_rounds) + "**"@,
                ..m
            }
        } else {
            MessageView { description: spec_hit_text(lang, c.success_level) + "\n\n"@ + m.description, ..m }
        },
    }
}

/// The message of an attack.
pub fn attack_message(
    lang: LocaleLang,
    croll_result: &CrollResult,
    weapon_result: &Result<WeaponOk, WeaponError>,
    malfunction: Option<i32>,
    jammed_rounds: i32,
    skill_name: &str,
    character_name: &str,
) -> (r: MessageContent)
    ensures
        r@ == spec_attack_message(lang, croll_result@, *weapon_result, malfunction, jammed_rounds as int, skill_name@, character_name@),
{
    let mut mc = MessageContent::from_croll_result(lang, croll_result, false, true)
        .with_skill_name(skill_name)
        .with_character_name(character_name);
    match weapon_result {
        Err(e) => {
            let mut d = String::from_str("**");
            d.append(e.to_string(lang).as_str());
            d.append("**");
            mc.description = d;
        },
        Ok(_) => {
            let jams = match malfunction {
                Some(m) => croll_result.result() >= m,
                None => false,
            };
            if jams {
                mc.description.append("\n**");
                mc.description.append(locale_text_by_tag_lang(lang, LocaleTag::WeaponJammed).as_str());
                mc.description.append("**\n");
                mc.description.append(locale_text_by_tag_lang(lang, LocaleTag::Rolls).as_str());
                mc.description.append(": **");
                push_int(&mut mc.description, jammed_rounds as i64);
                mc.description.append("**");
            } else {
                let mut d = match croll_result.success_level {
                    SuccessLevel::Success | SuccessLevel::HardSuccess => WeaponOk::Hit.to_string(lang),
                    SuccessLevel::ExtremeSuccess | SuccessLevel::CriticalSuccess => {
                        let mut b = String::from_str("**");
                        b.append(WeaponOk::CriticalHit.to_string(lang).as_str());
                        b.append("**");
                        b
                    },
                    _ => WeaponOk::Miss.to_string(lang),
                };
                d.append("\n\n");
                d.append(mc.description.as_str());
                mc.description = d;
            }
        },
    }
    mc
}

/// What firing once does to a weapon, and its outcome.
pub open spec fn spec_fire(w: WeaponView) -> (WeaponView, Result<WeaponOk, WeaponError>) {
    match w.ammo {
        Some(a) => (WeaponView { ammo: Some(spec_shoot(a, 1).0), ..w }, spec_shoot(a, 1).1),
        None => (w, Ok(WeaponOk::Hit)),
    }
}

/// One attack of a round, settled: the test, its message, whether the
/// weapon jammed so that no attack follows, whether the player may spend
/// luck on it, and whether it marks the skill to improve.
pub struct AttackOutcome {
    pub croll_result: CrollResult,
    pub message: MessageContent,
    pub last: bool,
    pub offers_choice: bool,
    pub marks_improvement: bool,
}

pub struct AttackOutcomeView {
    pub croll_result: CrollView,
    pub message: MessageView,
    pub last: bool,
    pub offers_choice: bool,
    pub marks_improvement: bool,
}

impl View for AttackOutcome {
    type V = AttackOutcomeView;

    open spec fn view(&self) -> AttackOutcomeView {
        AttackOutcomeView {
            croll_result: self.croll_result@,
            message: self.message@,
            last: self.last,
            offers_choice: self.offers_choice,
            marks_improvement: self.marks_improvement,
        }
    }
}

/// The views of a round's outcomes.
pub open spec fn spec_attack_views(v: Seq<AttackOutcome>) -> Seq<AttackOutcomeView> {
    v.map_values(|o: AttackOutcome| o@)
}

/// A round of attacks marks the weapon's skill when any of its attacks does.
pub fn round_marks_improvement(outcomes: &Vec<AttackOutcome>) -> (r: bool)
    ensures
        r == exists|k: int| 0 <= k < outcomes@.len() && #[trigger] outcomes@[k].marks_improvement,
{
    let mut k: usize = 0;
    while k < outcomes.len()
        invariant
            k <= outcomes@.len(),
            forall|j: int| 0 <= j < k ==> !#[trigger] outcomes@[j].marks_improvement,
        decreases outcomes@.len() - k,
    {
        if outcomes[k].marks_improvement {
            return true;
        }
        k += 1;
    }
    false
}

/// The skill test query before the attack's own penalty marks.
pub open spec fn spec_base_query(value: int, asked: Option<Seq<char>>) -> Seq<char> {
    spec_int_str(value) + (match asked {
        Some(d) => d,
        None => Seq::<char>::empty(),
    })
}

/// What a round of attacks is told: the skill, its owner and the player's dice.
pub struct AttackSetting {
    pub lang: LocaleLang,
    pub skill_value: i32,
    pub asked: Option<Seq<char>>,
    pub improvable: bool,
    pub skill_name: Seq<char>,
    pub character_name: Seq<char>,
}

/// The setting of a round of attacks, from the arguments that give it.
pub open spec fn spec_attack_setting(
    lang: LocaleLang,
    skill_value: i32,
    modifier_dice: Option<&str>,
    improvable: bool,
    skill_name: &str,
    character_name: &str,
) -> AttackSetting {
    AttackSetting {
        lang,
        skill_value,
        asked: match modifier_dice {
            Some(d) => Some(d@),
            None => None,
        },
        improvable,
        skill_name: skill_name@,
        character_name: character_name@,
    }
}

/// The `k`-th attack of a round whose base query reads as `threshold`,
/// `penalty` and `bonus`, rolled with the units die `one`, the tens dice
/// `tens` and, if the weapon jams, `jam` rounds to clear it: the weapon
/// before and after it, and the outcome; `seg` are the draws of those dice,
/// the units die, the tens dice, then the jam's d6.
#[verifier::opaque]
pub open spec fn spec_attack_step(
    st: AttackSetting,
    attack: Attack,
    k: int,
    threshold: i32,
    penalty: int,
    bonus: int,
    before: WeaponView,
    after: WeaponView,
    out: AttackOutcomeView,
    one: i32,
    tens: Seq<i32>,
    jam: int,
    seg: Seq<(i32, i32, i32)>,
) -> bool {
    let q = spec_attack_query(st.skill_value as int, st.asked, attack, k);
    let p = (penalty + spec_attack_dice(attack, k).len()) as i32;
    let c0 = spec_croll(q, threshold, p, bonus as i32, one, tens);
    let wr = spec_fire(before).1;
    let c = CrollView { success_level: spec_attack_level(c0, wr, before.malfunction), ..c0 };
    &&& spec_valid_croll_dice(p, bonus as i32, one, tens)
    &&& after == spec_fire(before).0
    &&& out.croll_result == c
    &&& out.last == (wr is Ok && spec_jams(c0, before.malfunction))
    &&& out.offers_choice == (wr is Ok && !spec_jams(c0, before.malfunction) && spec_offers_choice(c0.success_level))
    &&& out.marks_improvement == spec_marks_improvement(st.improvable, c)
    &&& (out.last ==> 1 <= jam <= 6)
    &&& out.message == spec_attack_message(st.lang, c, wr, before.malfunction, jam, st.skill_name, st.character_name)
    &&& seg == spec_croll_draws(one, tens) + (if out.last { seq![(1i32, 6i32, jam as i32)] } else { Seq::<(i32, i32, i32)>::empty() })
}

/// Some dice, drawn as `seg`, make the `k`-th attack of a round go from
/// `before` to `after` with the outcome `out`.
pub open spec fn spec_step_holds(
    st: AttackSetting,
    attack: Attack,
    k: int,
    threshold: i32,
    penalty: int,
    bonus: int,
    before: WeaponView,
    after: WeaponView,
    out: AttackOutcomeView,
    seg: Seq<(i32, i32, i32)>,
) -> bool {
    exists|one: i32, tens: Seq<i32>, jam: int| #[trigger] spec_attack_step(st, attack, k, threshold, penalty, bonus, before, after, out, one, tens, jam, seg)
}

/// A round of attacks as a trace: the weapon before each attack and after
/// the last, each attack one step of the round with its own draws.
pub open spec fn spec_round_trace(
    st: AttackSetting,
    attack: Attack,
    threshold: i32,
    penalty: int,
    bonus: int,
    outs: Seq<AttackOutcomeView>,
    ws: Seq<WeaponView>,
    segs: Seq<Seq<(i32, i32, i32)>>,
) -> bool {
    &&& ws.len() == outs.len() + 1
    &&& segs.len() == outs.len()
    &&& forall|k: int| 0 <= k < outs.len() ==> #[trigger] spec_step_holds(st, attack, k, threshold, penalty, bonus, ws[k], ws[k + 1], outs[k], segs[k])
}

proof fn lemma_dashes_len(n: nat)
    ensures
        spec_dashes(n).len() == n,
    decreases n,
{
    if n > 0 {
        lemma_dashes_len((n - 1) as nat);
    }
}

/// The `n`-th attack of a round: fires the weapon and settles the test.
fn one_attack<D: DiceRng>(
    rng: &mut D,
    lang: LocaleLang,
    weapon: &mut Weapon,
    attack: &Attack,
    n: i32,
    skill_value: i32,
    modifier_dice: Option<&str>,
    threshold: i32,
    penalty: i32,
    bonus: i32,
    improvable: bool,
    skill_name: &str,
    character_name: &str,
) -> (r: AttackOutcome)
    requires
        0 <= n < attack.count,
        attack.count < 0x1000_0000,
        0 <= penalty <= 0x1000_0010,
        0 <= bonus < i32::MAX,
        old(weapon).ammo matches Some(a) ==> a.clip_rounds > i32::MIN,
    ensures
        final(weapon)@.ammo matches Some(a) ==> a.clip_rounds > i32::MIN,
        spec_step_holds(
            spec_attack_setting(lang, skill_value, modifier_dice, improvable, skill_name, character_name),
            *attack,
            n as int,
            threshold,
            penalty as int,
            bonus as int,
            old(weapon)@,
            final(weapon)@,
            r@,
            final(rng).draws().skip(old(rng).draws().len() as int),
        ),
        old(rng).draws().is_prefix_of(final(rng).draws()),
{
    let ghost st = spec_attack_setting(lang, skill_value, modifier_dice, improvable, skill_name, character_name);
    let ghost d0 = rng.draws();
    let query = attack_croll_query(skill_value, modifier_dice, attack, n);
    let marks = attack.get_modifier(n);
    proof {
        lemma_dashes_len(n as nat);
        assert(marks@ == spec_attack_dice(*attack, n as int));
    }
    let extra: i32 = marks.unicode_len() as i32;
    let mut croll_result = croll_with(rng, query.as_str(), threshold, penalty + extra, bonus);
    let ghost c0 = croll_result@;
    let ghost before = weapon@;
    let weapon_result = fire_weapon(weapon);
    let malfunction = weapon.malfunction;
    let (last, choice) = resolve_attack(&mut croll_result, &weapon_result, malfunction);
    let marks_improvement = marks_improvement(improvable, &croll_result);
    let jam: i32 = if last { roll_die(rng, 6) } else { 0 };
    let message = attack_message(lang, &croll_result, &weapon_result, malfunction, jam, skill_name, character_name);
    let r = AttackOutcome { croll_result, message, last, offers_choice: choice, marks_improvement };
    reveal(spec_attack_step);
    assert(rng.draws().skip(d0.len() as int) =~= spec_croll_draws(c0.one_roll, c0.ten_rolls)
        + (if last { seq![(1i32, 6i32, jam)] } else { Seq::<(i32, i32, i32)>::empty() }));
    assert(spec_attack_step(st, *attack, n as int, threshold, penalty as int, bonus as int, before, weapon@, r@, c0.one_roll, c0.ten_rolls,
        jam as int, rng.draws().skip(d0.len() as int)));
    r
}

/// A round of attacks: as many as the way of attacking makes, unless the
/// weapon jams, which ends the round; each attack a step from the weapon
/// before it to the weapon after it, and the draws of the steps, one after
/// another, lead from `d_before` to `d_after`.
pub open spec fn spec_round_outcome(
    st: AttackSetting,
    attack: Attack,
    threshold: i32,
    penalty: int,
    bonus: int,
    outs: Seq<AttackOutcomeView>,
    start: WeaponView,
    end: WeaponView,
    d_before: Seq<(i32, i32, i32)>,
    d_after: Seq<(i32, i32, i32)>,
) -> bool {
    &&& (attack.count <= 0 ==> outs.len() == 0)
    &&& (attack.count > 0 ==> 1 <= outs.len() <= attack.count)
    &&& (outs.len() < attack.count ==> outs.len() > 0 && outs.last().last)
    &&& forall|k: int| 0 <= k < outs.len() - 1 ==> !(#[trigger] outs[k]).last
    &&& exists|ws: Seq<WeaponView>, segs: Seq<Seq<(i32, i32, i32)>>|
        #[trigger] spec_round_trace(st, attack, threshold, penalty, bonus, outs, ws, segs)
        && ws[0] == start && ws.last() == end && d_after == d_before + spec_concat_draws(segs)
}

/// The attacks of a round with a weapon, one after another until the count
/// of the way of attacking is reached or the weapon jams; each fires the
/// weapon and rolls the skill test with the player's dice and the attack's
/// penalty marks. `None` where the skill test query does not read.
#[verifier::rlimit(40)]
pub fn attack_round<D: DiceRng>(
    rng: &mut D,
    lang: LocaleLang,
    weapon: &mut Weapon,
    attack: &Attack,
    skill_value: i32,
    modifier_dice: Option<&str>,
    improvable: bool,
    skill_name: &str,
    character_name: &str,
) -> (r: Option<Vec<AttackOutcome>>)
    requires
        attack.count < 0x1000_0000,
        modifier_dice matches Some(d) ==> d@.len() < 0x1000_0000,
        old(weapon).ammo matches Some(a) ==> a.clip_rounds > i32::MIN,
    ensures
        ({
            let asked = match modifier_dice {
                Some(d) => Some(d@),
                None => None,
            };
            match spec_croll_query(spec_remove_spaces(spec_base_query(skill_value as int, asked))) {
                None => r is None && final(weapon)@ == old(weapon)@ && final(rng).draws() == old(rng).draws(),
                Some((t, p, b)) => r matches Some(v) && spec_round_outcome(
                    spec_attack_setting(lang, skill_value, modifier_dice, improvable, skill_name, character_name),
                    *attack, t, p, b, spec_attack_views(v@), old(weapon)@, final(weapon)@, old(rng).draws(), final(rng).draws()),
            }
        }),
{
    let ghost asked = match modifier_dice {
        Some(d) => Some(d@),
        None => None,
    };
    let ghost st = spec_attack_setting(lang, skill_value, modifier_dice, improvable, skill_name, character_name);
    let mut base = String::new();
    push_int(&mut base, skill_value as i64);
    match modifier_dice {
        Some(d) => {
            base.append(d);
        },
        None => {},
    }
    assert(base@ == spec_base_query(skill_value as int, asked));
    proof {
        lemma_int_str_short(skill_value as int);
    }
    let (threshold, penalty, bonus) = match croll_query_parts(base.as_str()) {
        Some(parts) => parts,
        None => {
            return None;
        },
    };
    let ghost w0 = weapon@;
    let ghost mut ws: Seq<WeaponView> = seq![w0];
    let ghost d0 = rng.draws();
    let ghost mut segs: Seq<Seq<(i32, i32, i32)>> = Seq::empty();
    assert(d0 + spec_concat_draws(segs) =~= d0);
    let mut out: Vec<AttackOutcome> = Vec::new();
    let mut n: i32 = 0;
    let mut stop = false;
    while n < attack.count && !stop
        invariant
            0 <= n,
            n == out@.len(),
            attack.count <= 0 ==> n == 0,
            n <= attack.count || attack.count <= 0,
            stop ==> out@.len() > 0 && out@.last().last,
            !stop ==> !(out@.len() > 0 && out@.last().last),
            attack.count < 0x1000_0000,
            modifier_dice matches Some(d) ==> d@.len() < 0x1000_0000,
            0 <= penalty < i32::MAX,
            0 <= bonus < i32::MAX,
            penalty <= base@.len(),
            base@ == spec_base_query(skill_value as int, asked),
            base@.len() <= 12 + 0x1000_0000,
            st == spec_attack_setting(lang, skill_value, modifier_dice, improvable, skill_name, character_name),
            asked == (match modifier_dice {
                Some(d) => Some(d@),
                None => None::<Seq<char>>,
            }),
            ws.len() == out@.len() + 1,
            segs.len() == out@.len(),
            d0 == old(rng).draws(),
            rng.draws() == d0 + spec_concat_draws(segs),
            ws[0] == w0,
            ws.last() == weapon@,
            weapon@.ammo matches Some(a) ==> a.clip_rounds > i32::MIN,
            forall|k: int| 0 <= k < out@.len() - 1 ==> !(#[trigger] out@[k]).last,
            forall|k: int| 0 <= k < out@.len() ==> #[trigger] spec_step_holds(st, *attack, k, threshold, penalty as int, bonus as int, ws[k], ws[k + 1], out@[k]@, segs[k]),
        decreases attack.count - n,
    {
        let ghost before = weapon@;
        let ghost pre = rng.draws();
        let ghost bsegs = segs;
        let outcome = one_attack(rng, lang, weapon, attack, n, skill_value, modifier_dice, threshold, penalty, bonus, improvable, skill_name, character_name);
        let last = outcome.last;
        let ghost ov = outcome@;
        let ghost prev = out@;
        let ghost ws_old = ws;
        out.push(outcome);
        proof {
            ws = ws.push(weapon@);
            segs = segs.push(rng.draws().skip(pre.len() as int));
            assert(segs.drop_last() =~= bsegs);
            assert(pre.is_prefix_of(rng.draws()));
            assert(rng.draws() =~= pre + rng.draws().skip(pre.len() as int));
            assert(rng.draws() =~= d0 + spec_concat_draws(segs));
        }
        assert(ws[n as int] == before);
        assert(ws[n as int + 1] == weapon@);
        assert(out@[n as int]@ == ov);
        assert forall|k: int| 0 <= k < out@.len() implies #[trigger] spec_step_holds(st, *attack, k, threshold, penalty as int, bonus as int, ws[k], ws[k + 1], out@[k]@, segs[k]) by {
            if k < n {
                assert(out@[k] == prev[k]);
                assert(ws[k] == ws_old[k]);
                assert(ws[k + 1] == ws_old[k + 1]);
                assert(segs[k] == bsegs[k]);
                assert(spec_step_holds(st, *attack, k, threshold, penalty as int, bonus as int, ws_old[k], ws_old[k + 1], prev[k]@, bsegs[k]));
            }
        }
        n += 1;
        stop = last;
    }
    proof {
        let outs = spec_attack_views(out@);
        assert forall|k: int| 0 <= k < outs.len() implies #[trigger] spec_step_holds(st, *attack, k, threshold, penalty as int, bonus as int, ws[k], ws[k + 1], outs[k], segs[k]) by {
            assert(outs[k] == out@[k]@);
            assert(spec_step_holds(st, *attack, k, threshold, penalty as int, bonus as int, ws[k], ws[k + 1], out@[k]@, segs[k]));
        }
        assert(spec_round_trace(st, *attack, threshold, penalty as int, bonus as int, outs, ws, segs));
        assert forall|k: int| 0 <= k < outs.len() - 1 implies !(#[trigger] outs[k]).last by {
            assert(outs[k] == out@[k]@);
        }
        if out@.len() > 0 {
            assert(outs.last() == out@.last()@);
        }
        assert(ws[0] == old(weapon)@);
        assert(spec_round_outcome(st, *attack, threshold, penalty as int, bonus as int, outs, old(weapon)@, weapon@, old(rng).draws(), rng.draws()));
    }
    Some(out)
}

/// The power of a sheet: its seventh characteristic.
pub open spec fn spec_power(c: CharacterView) -> int {
    c.attributes[6].1 as int
}

/// A luck check finds a lasting gain only on a critical success.
pub open spec fn spec_luck_critical(cr: CrollView) -> bool {
    cr.success_level == SuccessLevel::CriticalSuccess
}

/// The message of a luck check: the test, titled with luck and the
/// character's name; on a critical success, the power that grows by `gain`,
/// rolled on a d10.
pub open spec fn spec_luck_check_message(lang: LocaleLang, c: CharacterView, name: Seq<char>, cr: CrollView, gain: int) -> MessageView {
    let m = spec_croll_message(lang, cr, false, true);
    let titled = MessageView { title: m.title + "\n"@ + spec_tag_text(lang, LocaleTag::Luck) + " (`"@ + name + "`)"@, ..m };
    if spec_luck_critical(cr) {
        MessageView {
            description: titled.description + "\n"@ + spec_int_str(spec_power(c)) + " + **"@ + spec_int_str(gain) + "** ("@
                + spec_localised_dice("d10"@, lang) + ") = **"@ + spec_int_str(spec_power(c) + gain) + "**"@,
            ..titled
        }
    } else {
        titled
    }
}

/// The sheet after a luck check: a critical success sets power to the
/// power plus `gain`, as setting the characteristic named `power` does.
pub open spec fn spec_luck_check_after(c: CharacterView, cr: CrollView, gain: int) -> CharacterView {
    if spec_luck_critical(cr) {
        spec_set_attribute(c, "power"@, (spec_power(c) + gain) as i32)
    } else {
        c
    }
}

/// Setting power by `gain` more stays within `i32`: power leaves room for
/// it, and none of the characteristics that build, move and hit points rest
/// on is itself named `power`.
pub open spec fn spec_power_gain_fits(c: CharacterView, gain: int) -> bool {
    &&& spec_power(c) + gain <= i32::MAX
    &&& forall|k: int| 0 <= k < 3 ==> !spec_entry_equals(#[trigger] c.attributes[k].0, "power"@)
}

/// Settles a luck check that came out as `luck_result`, with `gain` rolled
/// on a d10 for a critical success: the sheet and the message after it.
pub fn luck_check_apply(
    character: &mut Character,
    lang: LocaleLang,
    character_name: &str,
    luck_result: &CrollResult,
    gain: i32,
) -> (r: MessageContent)
    requires
        spec_luck_critical(luck_result@) ==> gain >= 0 && spec_power_gain_fits(old(character)@, gain as int),
    ensures
        r@ == spec_luck_check_message(lang, old(character)@, character_name@, luck_result@, gain as int),
        final(character)@ == spec_luck_check_after(old(character)@, luck_result@, gain as int),
{
    let luck_text = locale_text_by_tag_lang(lang, LocaleTag::Luck);
    let mut mc = MessageContent::from_croll_result(lang, luck_result, false, true)
        .with_skill_name(luck_text.as_str())
        .with_character_name(character_name);
    if luck_result.success_level == SuccessLevel::CriticalSuccess {
        let power = character.attributes.power.value;
        let new_power = power + gain;
        mc.description.append("\n");
        push_int(&mut mc.description, power as i64);
        mc.description.append(" + **");
        push_int(&mut mc.description, gain as i64);
        mc.description.append("** (");
        let dice = localised_dice("d10", lang);
        mc.description.append(dice.as_str());
        mc.description.append(") = **");
        push_int(&mut mc.description, new_power as i64);
        mc.description.append("**");
        proof {
            reveal_strlit("d10");
            let c = character@;
            lemma_attribute_index(c.attributes, "power"@);
            let a = spec_attributes_set(c.attributes, "power"@, new_power);
            assert forall|k: int| 0 <= k < 3 implies a[k].0 == c.attributes[k].0 by {
                assert(c.attributes.len() == 8);
            }
            assert(!spec_entry_equals(c.attributes[0].0, "power"@));
            assert(!spec_entry_equals(c.attributes[1].0, "power"@));
            assert(!spec_entry_equals(c.attributes[2].0, "power"@));
        }
        character.set_attribute("power", new_power);
    }
    mc
}

/// The draws and outcome of a luck check: the skill test's dice, then, on a
/// critical success, one d10 for the gain.
pub open spec fn spec_luck_check_run(
    lang: LocaleLang,
    c: CharacterView,
    name: Seq<char>,
    q: Seq<char>,
    threshold: i32,
    penalty: int,
    bonus: int,
    cr: CrollView,
    gain: int,
    after: CharacterView,
    m: MessageView,
    d_before: Seq<(i32, i32, i32)>,
    d_after: Seq<(i32, i32, i32)>,
) -> bool {
    &&& spec_valid_croll_dice(penalty as i32, bonus as i32, cr.one_roll, cr.ten_rolls)
    &&& cr == spec_croll(q, threshold, penalty as i32, bonus as i32, cr.one_roll, cr.ten_rolls)
    &&& if spec_luck_critical(cr) {
        &&& 1 <= gain <= 10
        &&& d_after == d_before + spec_croll_draws(cr.one_roll, cr.ten_rolls) + seq![(1i32, 10i32, gain as i32)]
    } else {
        &&& gain == 0
        &&& d_after == d_before + spec_croll_draws(cr.one_roll, cr.ten_rolls)
    }
    &&& after == spec_luck_check_after(c, cr, gain)
    &&& m == spec_luck_check_message(lang, c, name, cr, gain)
}

/// Some dice make a luck check go as `spec_luck_check_run` says.
pub open spec fn spec_luck_checked(
    lang: LocaleLang,
    c: CharacterView,
    name: Seq<char>,
    q: Seq<char>,
    threshold: i32,
    penalty: int,
    bonus: int,
    after: CharacterView,
    m: MessageView,
    d_before: Seq<(i32, i32, i32)>,
    d_after: Seq<(i32, i32, i32)>,
) -> bool {
    exists|cr: CrollView, gain: int| #[trigger] spec_luck_check_run(lang, c, name, q, threshold, penalty, bonus, cr, gain, after, m, d_before, d_after)
}

/// A luck check: a skill test against the current luck with the modifier
/// dice asked for; a critical success adds a d10 to power. `None`, with
/// nothing changed or drawn, where the test's query does not read.
pub fn luck_check<D: DiceRng>(
    rng: &mut D,
    character: &mut Character,
    lang: LocaleLang,
    character_name: &str,
    modifier_dice: Option<&str>,
) -> (r: Option<MessageContent>)
    requires
        modifier_dice matches Some(d) ==> d@.len() < 0x1000_0000,
        spec_power_gain_fits(old(character)@, 10),
    ensures
        ({
            let asked = match modifier_dice {
                Some(d) => Some(d@),
                None => None,
            };
            let q = spec_base_query(old(character).luck.current as int, asked);
            match spec_croll_query(spec_remove_spaces(q)) {
                None => r is None && final(character)@ == old(character)@ && final(rng).draws() == old(rng).draws(),
                Some((t, p, b)) => r matches Some(m) && spec_luck_checked(
                    lang, old(character)@, character_name@, q, t, p, b, final(character)@, m@, old(rng).draws(), final(rng).draws()),
            }
        }),
{
    let ghost asked = match modifier_dice {
        Some(d) => Some(d@),
        None => None,
    };
    let ghost c0 = character@;
    let ghost d0 = rng.draws();
    let mut base = String::new();
    push_int(&mut base, character.luck.current as i64);
    match modifier_dice {
        Some(d) => {
            base.append(d);
        },
        None => {},
    }
    assert(base@ == spec_base_query(character.luck.current as int, asked));
    proof {
        lemma_int_str_short(character.luck.current as int);
    }
    let (threshold, penalty, bonus) = match croll_query_parts(base.as_str()) {
        Some(parts) => parts,
        None => {
            return None;
        },
    };
    let cr = croll_with(rng, base.as_str(), threshold, penalty, bonus);
    let ghost d1 = rng.draws();
    let gain: i32 = if cr.success_level == SuccessLevel::CriticalSuccess { roll_die(rng, 10) } else { 0 };
    let m = luck_check_apply(character, lang, character_name, &cr, gain);
    proof {
        if cr.success_level == SuccessLevel::CriticalSuccess {
            assert(rng.draws() =~= d0 + spec_croll_draws(cr@.one_roll, cr@.ten_rolls) + seq![(1i32, 10i32, gain)]);
        }
        assert(spec_luck_check_run(lang, c0, character_name@, base@, threshold, penalty as int, bonus as int, cr@, gain as int,
            character@, m@, d0, rng.draws()));
    }
    Some(m)
}

/// What a round of `n` attacks may do to a weapon: nothing but its
/// ammunition changes; a weapon without ammunition stays as it is; one with
/// ammunition keeps its loose rounds and clip size and loses at most one
/// round from the clip per attack.
pub open spec fn spec_round_spends(start: WeaponView, end: WeaponView, n: int) -> bool {
    &&& end == (WeaponView { ammo: end.ammo, ..start })
    &&& match start.ammo {
        None => end.ammo is None,
        Some(a) => end.ammo matches Some(e) && e.loose_rounds == a.loose_rounds && e.clip_size == a.clip_size
            && a.clip_rounds - n <= e.clip_rounds <= a.clip_rounds,
    }
}

proof fn lemma_trace_spends(
    st: AttackSetting,
    attack: Attack,
    threshold: i32,
    penalty: int,
    bonus: int,
    outs: Seq<AttackOutcomeView>,
    ws: Seq<WeaponView>,
    segs: Seq<Seq<(i32, i32, i32)>>,
    k: int,
)
    requires
        spec_round_trace(st, attack, threshold, penalty, bonus, outs, ws, segs),
        0 <= k <= outs.len(),
    ensures
        spec_round_spends(ws[0], ws[k], k),
    decreases k,
{
    if k > 0 {
        lemma_trace_spends(st, attack, threshold, penalty, bonus, outs, ws, segs, k - 1);
        let j = k - 1;
        assert(spec_step_holds(st, attack, j, threshold, penalty, bonus, ws[j], ws[j + 1], outs[j], segs[j]));
        let (one, tens, jam) = choose|one: i32, tens: Seq<i32>, jam: int| #[trigger] spec_attack_step(
            st, attack, j, threshold, penalty, bonus, ws[j], ws[j + 1], outs[j], one, tens, jam, segs[j]);
        reveal(spec_attack_step);
        assert(ws[j + 1] == spec_fire(ws[j]).0);
        assert(j + 1 == k);
    }
}

/// A round of attacks spends ammunition and nothing else: a weapon without
/// ammunition comes out of it as it went in, and one with ammunition keeps
/// its loose rounds and clip size and loses at most one round from the clip
/// for each attack made.
pub proof fn lemma_round_spends_clip(
    st: AttackSetting,
    attack: Attack,
    threshold: i32,
    penalty: int,
    bonus: int,
    outs: Seq<AttackOutcomeView>,
    start: WeaponView,
    end: WeaponView,
    d_before: Seq<(i32, i32, i32)>,
    d_after: Seq<(i32, i32, i32)>,
)
    requires
        spec_round_outcome(st, attack, threshold, penalty, bonus, outs, start, end, d_before, d_after),
    ensures
        spec_round_spends(start, end, outs.len() as int),
{
    let (ws, segs) = choose|ws: Seq<WeaponView>, segs: Seq<Seq<(i32, i32, i32)>>|
        #[trigger] spec_round_trace(st, attack, threshold, penalty, bonus, outs, ws, segs)
        && ws[0] == start && ws.last() == end && d_after == d_before + spec_concat_draws(segs);
    lemma_trace_spends(st, attack, threshold, penalty, bonus, outs, ws, segs, outs.len() as int);
}

/// The penalty dice of a fighting maneuver against a target of greater
/// build: one per point of difference, up to two; beyond two the maneuver
/// cannot be tried.
pub open spec fn spec_maneuver_dice(target_build: int, build: int) -> Option<Seq<char>> {
    let diff = target_build - build;
    if diff > 2 {
        None
    } else if diff == 2 {
        Some("--"@)
    } else if diff == 1 {
        Some("-"@)
    } else {
        Some(Seq::<char>::empty())
    }
}

/// The penalty dice of a fighting maneuver, or `None` where the target's
/// build is too great.
pub fn maneuver_dice(target_build: i32, build: i32) -> (r: Option<String>)
    ensures
        match spec_maneuver_dice(target_build as int, build as int) {
            Some(d) => r matches Some(s) && s@ == d,
            None => r is None,
        },
{
    let diff: i64 = target_build as i64 - build as i64;
    if diff > 2 {
        None
    } else if diff == 2 {
        Some(String::from_str("--"))
    } else if diff == 1 {
        Some(String::from_str("-"))
    } else {
        Some(String::new())
    }
}

/// The damage query of a weapon at a distance: its damage, then the
/// character's damage bonus where the weapon adds one, halved where it
/// halves it.
pub open spec fn spec_damage_query(lang: LocaleLang, c: CharacterView, w: WeaponView, distance: Option<i32>) -> Seq<char> {
    let base = spec_localised_dice(spec_damage_at(w.range_dmgs, distance), lang);
    let bonus = spec_localised_dice(spec_damage_bonus(c.build as int), lang);
    if w.apply_damage_modifier && bonus != "0"@ {
        base + bonus + (if w.half_damage_modifier { "x0.5"@ } else { Seq::<char>::empty() })
    } else {
        base
    }
}

/// The damage query of a weapon at a distance.
pub fn damage_query(lang: LocaleLang, character: &Character, weapon: &Weapon, distance: Option<i32>) -> (r: String)
    requires
        weapon.range_dmgs.len() > 0,
        weapon.apply_damage_modifier ==> character.build != i32::MIN,
    ensures
        r@ == spec_damage_query(lang, character@, weapon@, distance),
{
    let mut dmg = weapon.damage_dice(lang, distance);
    if weapon.apply_damage_modifier {
        let dm = character.damage_modifier(lang);
        if !str_equal(dm.as_str(), "0") {
            dmg.append(dm.as_str());
            if weapon.half_damage_modifier {
                dmg.append("x0.5");
            }
        }
    }
    dmg
}

/// The kinds of damage rolls asked for: `n` normal, `e` extreme; other
/// letters ask for none.
pub open spec fn spec_damage_kinds(types: Seq<char>) -> Seq<char> {
    types.filter(spec_damage_kind())
}

/// The letters that ask for a damage roll.
pub open spec fn spec_damage_kind() -> spec_fn(char) -> bool {
    |c: char| c == 'n' || c == 'e'
}

/// The highest total of a query.
pub open spec fn spec_query_max(q: Seq<char>) -> RollResultView {
    spec_merged(spec_roll_parse(q)->0.map_values(|t: TermValue| spec_max_view(t)))
}

/// A damage roll of a kind, made with `draws`: a roll of the query, or its
/// highest total with no draw; an impaling weapon adds a roll of its own
/// damage to the highest total.
pub open spec fn spec_damage_roll_ok(
    kind: char,
    dmg: Seq<char>,
    weapon_damage: Seq<char>,
    impaling: bool,
    r: RollResultView,
    draws: Seq<(i32, i32, i32)>,
) -> bool {
    if kind == 'n' {
        spec_rolled(dmg, r, draws)
    } else if impaling {
        exists|w: RollResultView| #[trigger] spec_rolled(weapon_damage, w, draws) && r == spec_merged(seq![spec_query_max(dmg), w])
    } else {
        r == spec_query_max(dmg) && draws.len() == 0
    }
}

/// Each damage roll is of its kind and made with its own draws, and the
/// draws go from `before` to `after`.
pub open spec fn spec_damage_rolls_ok(
    kinds: Seq<char>,
    dmg: Seq<char>,
    weapon_damage: Seq<char>,
    impaling: bool,
    results: Seq<RollResultView>,
    segs: Seq<Seq<(i32, i32, i32)>>,
    before: Seq<(i32, i32, i32)>,
    after: Seq<(i32, i32, i32)>,
) -> bool {
    &&& after == before + spec_concat_draws(segs)
    &&& results.len() == kinds.len()
    &&& segs.len() == kinds.len()
    &&& forall|k: int| 0 <= k < kinds.len()
        ==> spec_damage_roll_ok(kinds[k], dmg, weapon_damage, impaling, #[trigger] results[k], segs[k])
}

/// The damage rolls all read: none is asked for, or the query reads and,
/// where an impaling weapon rolls an extreme one, so does its own damage.
pub open spec fn spec_damage_reads(dmg: Seq<char>, weapon_damage: Seq<char>, impaling: bool, kinds: Seq<char>) -> bool {
    kinds.len() == 0 || (spec_roll_parse(dmg) is Some && (impaling && kinds.contains('e') ==> spec_roll_parse(weapon_damage) is Some))
}

/// Damage rolls of the asked kinds, each made with its own draws, which
/// follow one another from `before` to `after`.
pub open spec fn spec_damage_outcome(
    kinds: Seq<char>,
    dmg: Seq<char>,
    weapon_damage: Seq<char>,
    impaling: bool,
    results: Seq<RollResultView>,
    before: Seq<(i32, i32, i32)>,
    after: Seq<(i32, i32, i32)>,
) -> bool {
    exists|segs: Seq<Seq<(i32, i32, i32)>>| #[trigger] spec_damage_rolls_ok(kinds, dmg, weapon_damage, impaling, results, segs, before, after)
}

/// Rolls damage: one roll for each `n` or `e` of `damage_types`, in order.
pub fn damage_rolls<D: DiceRng>(
    rng: &mut D,
    dmg_dice: &str,
    weapon_damage: &str,
    impaling: bool,
    damage_types: &str,
) -> (r: Result<Vec<RollResult>, RollError>)
    requires
        spec_query_rollable(dmg_dice@),
        spec_query_rollable(weapon_damage@),
        spec_query_bound(dmg_dice@) + spec_query_bound(weapon_damage@) <= i32::MAX,
    ensures
        r is Ok <==> spec_damage_reads(dmg_dice@, weapon_damage@, impaling, spec_damage_kinds(damage_types@)),
        r matches Ok(v) ==> spec_damage_outcome(
            spec_damage_kinds(damage_types@), dmg_dice@, weapon_damage@, impaling, spec_result_views(v@),
            old(rng).draws(), final(rng).draws()),
        r is Err ==> old(rng).draws().is_prefix_of(final(rng).draws()),
{
    let ghost types = damage_types@;
    let ghost keep = spec_damage_kind();
    let ghost d0 = rng.draws();
    let ghost mut segs: Seq<Seq<(i32, i32, i32)>> = Seq::empty();
    let n = damage_types.unicode_len();
    let mut out: Vec<RollResult> = Vec::new();
    let mut i: usize = 0;
    proof {
        reveal(Seq::filter);
        assert(types.take(0) =~= Seq::<char>::empty());
        assert(types.take(0).filter(keep) =~= Seq::<char>::empty());
        assert(d0 + spec_concat_draws(segs) =~= d0);
    }
    while i < n
        invariant
            n == types.len(),
            types == damage_types@,
            keep == spec_damage_kind(),
            spec_query_rollable(dmg_dice@),
            spec_query_rollable(weapon_damage@),
            spec_query_bound(dmg_dice@) + spec_query_bound(weapon_damage@) <= i32::MAX,
            i <= n,
            out@.len() == types.take(i as int).filter(keep).len(),
            segs.len() == out@.len(),
            d0 == old(rng).draws(),
            rng.draws() == d0 + spec_concat_draws(segs),
            types.take(i as int).filter(keep).len() > 0 ==> spec_roll_parse(dmg_dice@) is Some,
            impaling && types.take(i as int).filter(keep).contains('e') ==> spec_roll_parse(weapon_damage@) is Some,
            forall|k: int| 0 <= k < out@.len() ==> spec_damage_roll_ok(
                types.take(i as int).filter(keep)[k], dmg_dice@, weapon_damage@, impaling, #[trigger] out@[k]@, segs[k]),
        decreases n - i,
    {
        let c = damage_types.get_char(i);
        let ghost prefix = types.take(i as int).filter(keep);
        let ghost pre = rng.draws();
        proof {
            assert(types.take(i as int + 1) =~= types.take(i as int).push(c));
            types.take(i as int).lemma_filter_push(c, keep);
        }
        if c == 'n' {
            let rr = match roll_impl(rng, dmg_dice) {
                Ok(r) => r,
                Err(e) => {
                    proof {
                        assert(!spec_damage_reads(dmg_dice@, weapon_damage@, impaling, spec_damage_kinds(types))) by {
                            lemma_kinds_prefix(types, i as int + 1);
                        }
                        assert(d0.is_prefix_of(rng.draws()));
                    }
                    return Err(e);
                },
            };
            let ghost seg = rng.draws().skip(pre.len() as int);
            proof {
                let terms = spec_roll_parse(dmg_dice@)->0;
                let dice = choose|dice: Seq<Seq<i32>>| spec_dice_fit(terms, dice)
                    && rr@ == spec_merged(spec_outcome_views(terms, dice))
                    && rng.draws() == pre + spec_query_draws(terms, dice);
                assert(seg =~= spec_query_draws(terms, dice));
                assert(spec_rolled(dmg_dice@, rr@, seg));
            }
            let ghost before = out@;
            let ghost bsegs = segs;
            out.push(rr);
            proof {
                segs = segs.push(seg);
                assert(segs.drop_last() =~= bsegs);
                assert(rng.draws() =~= d0 + spec_concat_draws(segs));
            }
            assert forall|k: int| 0 <= k < out@.len() implies spec_damage_roll_ok(
                types.take(i as int + 1).filter(keep)[k], dmg_dice@, weapon_damage@, impaling, #[trigger] out@[k]@, segs[k]) by {
                if k < before.len() {
                    assert(out@[k] == before[k]);
                    assert(segs[k] == bsegs[k]);
                }
            }
        } else if c == 'e' {
            let max = match get_roll_max(dmg_dice) {
                Ok(r) => r,
                Err(e) => {
                    proof {
                        assert(!spec_damage_reads(dmg_dice@, weapon_damage@, impaling, spec_damage_kinds(types))) by {
                            lemma_kinds_prefix(types, i as int + 1);
                        }
                        assert(d0.is_prefix_of(rng.draws()));
                    }
                    return Err(e);
                },
            };
            let rr = if impaling {
                let w = match roll_impl(rng, weapon_damage) {
                    Ok(r) => r,
                    Err(e) => {
                        proof {
                            assert(!spec_damage_reads(dmg_dice@, weapon_damage@, impaling, spec_damage_kinds(types))) by {
                                lemma_kinds_prefix(types, i as int + 1);
                                assert(types.take(i as int + 1).filter(keep).last() == 'e');
                                assert(types.take(i as int + 1).filter(keep).contains('e'));
                                lemma_kinds_contains(types, i as int + 1);
                            }
                            assert(d0.is_prefix_of(rng.draws()));
                        }
                        return Err(e);
                    },
                };
                let ghost mv = max@;
                let ghost wv = w@;
                proof {
                    let terms = spec_roll_parse(weapon_damage@)->0;
                    let dice = choose|dice: Seq<Seq<i32>>| spec_dice_fit(terms, dice)
                        && w@ == spec_merged(spec_outcome_views(terms, dice))
                        && rng.draws() == pre + spec_query_draws(terms, dice);
                    assert(rng.draws().skip(pre.len() as int) =~= spec_query_draws(terms, dice));
                    assert(spec_rolled(weapon_damage@, wv, rng.draws().skip(pre.len() as int)));
                }
                let pair = vec![max, w];
                proof {
                    assert(spec_result_views(pair@) =~= seq![mv, wv]);
                    lemma_abs_sum_pair(mv, wv);
                }
                match merge_roll_results(pair.as_slice()) {
                    Ok(m) => m,
                    Err(e) => {
                        proof {
                            assert(d0.is_prefix_of(rng.draws()));
                        }
                        return Err(e);
                    },
                }
            } else {
                max
            };
            let ghost seg = rng.draws().skip(pre.len() as int);
            proof {
                if !impaling {
                    assert(seg.len() == 0);
                }
            }
            let ghost before = out@;
            let ghost bsegs = segs;
            out.push(rr);
            proof {
                segs = segs.push(seg);
                assert(segs.drop_last() =~= bsegs);
                assert(rng.draws() =~= d0 + spec_concat_draws(segs));
            }
            assert forall|k: int| 0 <= k < out@.len() implies spec_damage_roll_ok(
                types.take(i as int + 1).filter(keep)[k], dmg_dice@, weapon_damage@, impaling, #[trigger] out@[k]@, segs[k]) by {
                if k < before.len() {
                    assert(out@[k] == before[k]);
                    assert(segs[k] == bsegs[k]);
                }
            }
        } else {
        }
        proof {
            let np = types.take(i as int + 1).filter(keep);
            if np.contains('e') && c != 'e' {
                let j = choose|j: int| 0 <= j < np.len() && #[trigger] np[j] == 'e';
                if c == 'n' {
                    assert(np == prefix.push(c));
                    assert(j < prefix.len());
                    assert(prefix[j] == 'e');
                } else {
                    assert(np == prefix);
                }
                assert(prefix.contains('e'));
            }
        }
        i += 1;
    }
    proof {
        assert(types.take(n as int) =~= types);
        assert forall|k: int| 0 <= k < out@.len() implies spec_damage_roll_ok(
            spec_damage_kinds(types)[k], dmg_dice@, weapon_damage@, impaling, #[trigger] spec_result_views(out@)[k], segs[k]) by {
            assert(spec_result_views(out@)[k] == out@[k]@);
        }
        assert(spec_damage_rolls_ok(spec_damage_kinds(types), dmg_dice@, weapon_damage@, impaling, spec_result_views(out@), segs,
            old(rng).draws(), rng.draws()));
    }
    assert(spec_damage_outcome(spec_damage_kinds(damage_types@), dmg_dice@, weapon_damage@, impaling, spec_result_views(out@),
        old(rng).draws(), rng.draws()));
    Ok(out)
}

/// The line of one damage roll: `Rolls` and its dice.
pub open spec fn spec_damage_line(lang: LocaleLang, r: RollResultView) -> Seq<char> {
    spec_tag_text(lang, LocaleTag::Rolls) + " "@ + r.roll_msg
}

/// The message of damage rolls: their merged total, then the weapon, the
/// query and one line for each roll.
pub open spec fn spec_damage_message(lang: LocaleLang, name: Seq<char>, dmg: Seq<char>, results: Seq<RollResultView>) -> MessageView {
    MessageView {
        title: spec_bold(spec_int_str(spec_roll_total(spec_merged(results)))),
        description: "**"@ + name + " ("@ + dmg + ")**\n\n"@
            + spec_join(results.map_values(|r: RollResultView| spec_damage_line(lang, r)), "\n"@),
        footer: Seq::<char>::empty(),
        colour: None,
    }
}

/// The message of damage rolls of a weapon.
pub fn damage_message(lang: LocaleLang, weapon_name: &str, dmg_dice: &str, results: &[RollResult]) -> (r: MessageContent)
    requires
        spec_results_abs_sum(spec_result_views(results@)) <= i32::MAX,
    ensures
        r@ == spec_damage_message(lang, weapon_name@, dmg_dice@, spec_result_views(results@)),
{
    let ghost views = spec_result_views(results@);
    let ghost line = |r: RollResultView| spec_damage_line(lang, r);
    let merged = match merge_roll_results(results) {
        Ok(m) => m,
        Err(_) => { return MessageContent { title: String::new(), description: String::new(), footer: String::new(), colour: None }; },
    };
    let mut title = String::from_str("**");
    push_int(&mut title, merged.result() as i64);
    title.append("**");
    let mut description = String::from_str("**");
    description.append(weapon_name);
    description.append(" (");
    description.append(dmg_dice);
    description.append(")**\n\n");
    let ghost head = description@;
    let mut i: usize = 0;
    proof {
        assert(views.take(0).map_values(line) =~= Seq::<Seq<char>>::empty());
    }
    while i < results.len()
        invariant
            views == spec_result_views(results@),
            line == (|r: RollResultView| spec_damage_line(lang, r)),
            i <= results@.len(),
            description@ == head + spec_join(views.take(i as int).map_values(line), "\n"@),
        decreases results@.len() - i,
    {
        let ghost before = views.take(i as int).map_values(line);
        if i > 0 {
            description.append("\n");
        }
        let text = locale_text_by_tag_lang(lang, LocaleTag::Rolls);
        description.append(text.as_str());
        description.append(" ");
        description.append(results[i].roll_msg.as_str());
        proof {
            let after = views.take(i as int + 1).map_values(line);
            assert(after.drop_last() =~= before);
            assert(after.last() == spec_damage_line(lang, views[i as int]));
            if i == 0 {
                assert(after =~= seq![spec_damage_line(lang, views[0])]);
            }
        }
        i += 1;
    }
    proof {
        assert(views.take(results@.len() as int) =~= views);
    }
    MessageContent { title, description, footer: String::new(), colour: None }
}

proof fn lemma_nat_str_short(n: nat, k: nat)
    requires
        n < spec_pow10(k),
    ensures
        spec_nat_str(n).len() <= k + 1,
    decreases n,
{
    if n >= 10 {
        assert(k > 0);
        assert(spec_pow10(k) == 10 * spec_pow10((k - 1) as nat));
        assert(n / 10 < spec_pow10((k - 1) as nat));
        lemma_nat_str_short(n / 10, (k - 1) as nat);
    }
}

proof fn lemma_int_str_short(v: int)
    requires
        i32::MIN <= v <= i32::MAX,
    ensures
        spec_int_str(v).len() <= 12,
{
    assert(spec_pow10(10) == 10000000000) by {
        reveal_with_fuel(spec_pow10, 11);
    }
    if v < 0 {
        lemma_nat_str_short((-v) as nat, 10);
    } else {
        lemma_nat_str_short(v as nat, 10);
    }
}

proof fn lemma_abs_sum_pair(a: RollResultView, b: RollResultView)
    ensures
        spec_results_abs_sum(seq![a, b]) == (if a.result >= 0 { a.result as int } else { -a.result })
            + (if b.result >= 0 { b.result as int } else { -b.result }),
{
    assert(seq![a, b].drop_last() =~= seq![a]);
    assert(seq![a].drop_last() =~= Seq::<RollResultView>::empty());
    assert(spec_results_abs_sum(seq![a]) == spec_results_abs_sum(Seq::<RollResultView>::empty())
        + (if a.result >= 0 { a.result as int } else { -a.result }));
}

proof fn lemma_kinds_prefix(types: Seq<char>, i: int)
    requires
        0 < i <= types.len(),
        types.take(i).filter(spec_damage_kind()).len() > 0,
    ensures
        spec_damage_kinds(types).len() > 0,
{
    let keep = spec_damage_kind();
    assert(types =~= types.take(i) + types.skip(i));
    Seq::filter_distributes_over_add(types.take(i), types.skip(i), keep);
}

proof fn lemma_kinds_contains(types: Seq<char>, i: int)
    requires
        0 < i <= types.len(),
        types.take(i).filter(spec_damage_kind()).contains('e'),
    ensures
        spec_damage_kinds(types).contains('e'),
{
    let keep = spec_damage_kind();
    let a = types.take(i).filter(keep);
    let b = types.skip(i).filter(keep);
    assert(types =~= types.take(i) + types.skip(i));
    Seq::filter_distributes_over_add(types.take(i), types.skip(i), keep);
    let j = choose|j: int| 0 <= j < a.len() && a[j] == 'e';
    assert((a + b)[j] == 'e');
}

} // verus!
