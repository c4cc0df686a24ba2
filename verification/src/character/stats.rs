//! Changes of hit points and sanity, and what they bring about.
use crate::character::{spec_clamp, spec_status_hp, spec_status_luck, spec_status_magic, spec_status_sanity, Character, CharacterView, CharacterVariable};
use crate::character::weapon::{localised_dice, spec_localised_dice};
use crate::development::spec_improve_message;
use crate::roller::improve_roll::{improve_skill_with, ImproveResult};
use crate::roller::roll::{
    roll_dice, spec_ceil_div, spec_dice_rolled, spec_roll_total, spec_sum, spec_term_bound, spec_term_draws, spec_valid_dice, Multiplier,
};
use crate::roller::success_level::SuccessLevel;
use crate::roller::dice_rng::DiceRng;
use crate::text::{push_int, spec_int_str};
use crate::locale::{locale_text_by_tag_lang, LocaleLang, LocaleTag};
use crate::message::{spec_tag_text, MessageContent, MessageView};
use crate::roller::dice_rng::RealRng;
use crate::roller::roll::{
    roll_impl, spec_dice_fit, spec_merged, spec_outcome_views, spec_query_bound, spec_query_rollable, spec_roll_parse,
    RollError,
};
use crate::text::{push_signed, spec_signed_str};
use vstd::prelude::*;

verus! {

/// `"\n\n**"`, a text, then `"**"`.
pub open spec fn spec_alert(t: Seq<char>) -> Seq<char> {
    "\n\n**"@ + t + "**"@
}

/// The sheet after a change of `d` hit points.
pub open spec fn spec_hp_after(c: CharacterView, d: i32) -> CharacterView {
    let cur = spec_clamp(c.hp.current + d, 0, c.hp.max as int) as i32;
    let hp = CharacterVariable { current: cur, ..c.hp };
    if d < -c.hp.max {
        CharacterView { hp, dead: true, major_wound: false, ..c }
    } else {
        CharacterView { hp, major_wound: if d <= -(c.hp.max / 2) { true } else { c.major_wound }, ..c }
    }
}

/// What a change of `d` hit points brings about, told in a language.
pub open spec fn spec_hp_consequences(c: CharacterView, d: i32, lang: LocaleLang) -> Seq<char> {
    let after = spec_hp_after(c, d);
    let t = |tag: LocaleTag| spec_tag_text(lang, tag);
    if d < -c.hp.max {
        spec_alert(t(LocaleTag::DeathInevitable))
    } else {
        (if d <= -(c.hp.max / 2) {
            spec_alert(t(LocaleTag::MajorWound)) + (if after.hp.current > 0 {
                "\n"@ + t(LocaleTag::YouFell) + "\n"@ + t(LocaleTag::RollConCheckBlackOut)
            } else {
                Seq::<char>::empty()
            })
        } else {
            Seq::<char>::empty()
        }) + (if after.hp.current == 0 {
            if after.major_wound {
                "\n**"@ + t(LocaleTag::Agony) + "**\n"@ + t(LocaleTag::YouFell) + "\n"@ + t(LocaleTag::YouBlackOut) + "\n"@
                    + t(LocaleTag::RollConCheckDie)
            } else {
                "\n**"@ + t(LocaleTag::KnockOut) + "**\n"@ + t(LocaleTag::YouFell) + "\n"@ + t(LocaleTag::YouBlackOut)
            }
        } else {
            Seq::<char>::empty()
        })
    }
}

/// A loss of hit points that does not kill is a major wound exactly when it
/// is at least half the maximum, rounded down: a sheet gains a major wound
/// then and keeps the one it had otherwise, and the told consequences open
/// with the major-wound alert exactly then. A smaller loss that leaves hit
/// points tells nothing at all.
pub proof fn lemma_major_wound_at_half(c: CharacterView, d: i32, lang: LocaleLang)
    requires
        c.hp.max >= 0,
        d >= -c.hp.max,
    ensures
        !spec_hp_after(c, d).dead == !c.dead,
        spec_hp_after(c, d).major_wound == (c.major_wound || c.hp.max <= 2 * (-d) + 1),
        c.hp.max <= 2 * (-d) + 1 ==> spec_hp_consequences(c, d, lang).take(
            spec_alert(spec_tag_text(lang, LocaleTag::MajorWound)).len() as int,
        ) == spec_alert(spec_tag_text(lang, LocaleTag::MajorWound)),
        c.hp.max >= 2 * (-d) + 2 && spec_hp_after(c, d).hp.current > 0 ==> spec_hp_consequences(c, d, lang).len() == 0,
{
    let a = spec_alert(spec_tag_text(lang, LocaleTag::MajorWound));
    if c.hp.max <= 2 * (-d) + 1 {
        assert(d <= -(c.hp.max / 2));
        assert(spec_hp_consequences(c, d, lang).take(a.len() as int) =~= a);
    } else {
        assert(!(d <= -(c.hp.max / 2)));
    }
}

/// The message of a change of `d` hit points, asked for as `delta`.
pub open spec fn spec_hp_message(c: CharacterView, d: i32, delta: Seq<char>, lang: LocaleLang) -> MessageView {
    MessageView {
        title: "`"@ + c.name + "`"@,
        description: "❤️ **"@ + spec_signed_str(d as int) + "** ("@ + delta + ")\n"@ + spec_status_hp(spec_hp_after(c, d))
            + spec_hp_consequences(c, d, lang),
        footer: Seq::<char>::empty(),
        colour: None,
    }
}

/// The sheet after a change of `d` sanity points.
pub open spec fn spec_sanity_after(c: CharacterView, d: i32) -> CharacterView {
    let cur = spec_clamp(c.sanity.current + d, 0, c.sanity.max as int) as i32;
    let sanity = CharacterVariable { current: cur, ..c.sanity };
    CharacterView {
        sanity,
        insane: if cur == 0 { true } else { c.insane },
        fragile_mind: if spec_below_four_fifths(cur as int, c.sanity.initial as int) { true } else { c.fragile_mind },
        ..c
    }
}

/// `current / initial < 0.8`, computed exactly: with no initial sanity the
/// quotient is infinite or undefined, and not below.
pub open spec fn spec_below_four_fifths(current: int, initial: int) -> bool {
    if initial > 0 {
        5 * current < 4 * initial
    } else if initial < 0 {
        5 * current > 4 * initial
    } else {
        current < 0
    }
}

/// What a change of `d` sanity points brings about, told in a language.
pub open spec fn spec_sanity_consequences(c: CharacterView, d: i32, lang: LocaleLang) -> Seq<char> {
    let cur = spec_clamp(c.sanity.current + d, 0, c.sanity.max as int);
    let t = |tag: LocaleTag| spec_tag_text(lang, tag);
    if spec_below_four_fifths(cur, c.sanity.initial as int) {
        spec_alert(t(LocaleTag::IndefInsanity))
    } else if cur == 0 {
        spec_alert(t(LocaleTag::MindShattered))
    } else if c.fragile_mind && d < 0 {
        spec_alert(t(LocaleTag::TempInsanity))
    } else if d <= -5 {
        spec_alert(t(LocaleTag::TempInsanityThreat)) + "\n"@ + t(LocaleTag::RollIntCheck)
    } else {
        Seq::<char>::empty()
    }
}

/// The message of a change of `d` sanity points, asked for as `delta`.
pub open spec fn spec_sanity_message(c: CharacterView, d: i32, delta: Seq<char>, lang: LocaleLang) -> MessageView {
    MessageView {
        title: "`"@ + c.name + "`"@,
        description: "🧠 **"@ + spec_signed_str(d as int) + "** ("@ + delta + ")\n"@
            + spec_status_sanity(spec_sanity_after(c, d)) + spec_sanity_consequences(c, d, lang),
        footer: Seq::<char>::empty(),
        colour: None,
    }
}

fn push_alert(s: &mut String, lang: LocaleLang, tag: LocaleTag)
    requires
        tag == LocaleTag::DeathInevitable || tag == LocaleTag::MajorWound || tag == LocaleTag::IndefInsanity
            || tag == LocaleTag::MindShattered || tag == LocaleTag::TempInsanity || tag == LocaleTag::TempInsanityThreat,
    ensures
        final(s)@ == old(s)@ + spec_alert(spec_tag_text(lang, tag)),
{
    s.append("\n\n**");
    let t = locale_text_by_tag_lang(lang, tag);
    s.append(t.as_str());
    s.append("**");
    assert(final(s)@ =~= old(s)@ + spec_alert(spec_tag_text(lang, tag)));
}

fn push_line(s: &mut String, lang: LocaleLang, tag: LocaleTag)
    requires
        tag == LocaleTag::YouFell || tag == LocaleTag::RollConCheckBlackOut || tag == LocaleTag::YouBlackOut
            || tag == LocaleTag::RollConCheckDie || tag == LocaleTag::RollIntCheck,
    ensures
        final(s)@ == old(s)@ + "\n"@ + spec_tag_text(lang, tag),
{
    s.append("\n");
    let t = locale_text_by_tag_lang(lang, tag);
    s.append(t.as_str());
}

fn push_bold_line(s: &mut String, lang: LocaleLang, tag: LocaleTag)
    requires
        tag == LocaleTag::Agony || tag == LocaleTag::KnockOut,
    ensures
        final(s)@ == old(s)@ + "\n**"@ + spec_tag_text(lang, tag) + "**\n"@,
{
    s.append("\n**");
    let t = locale_text_by_tag_lang(lang, tag);
    s.append(t.as_str());
    s.append("**\n");
}

fn title_of(character: &Character) -> (r: String)
    ensures
        r@ == "`"@ + character.name@ + "`"@,
{
    let mut t = String::from_str("`");
    t.append(character.name.as_str());
    t.append("`");
    t
}

/// Applies a change of `delta_res` hit points, rolled from `delta`: a loss
/// beyond the maximum kills, one of half the maximum is a major wound, and
/// none left knocks out or brings agony.
pub fn hp_apply(character: &mut Character, delta_res: i32, delta: &str, lang: LocaleLang) -> (r: MessageContent)
    requires
        old(character).hp.max >= 0,
        i32::MIN <= old(character).hp.current + delta_res <= i32::MAX,
    ensures
        final(character)@ == spec_hp_after(old(character)@, delta_res),
        r@ == spec_hp_message(old(character)@, delta_res, delta@, lang),
{
    let ghost c0 = character@;
    character.hp.modify(delta_res);
    let mut additional = String::new();
    if delta_res < -character.hp.max {
        character.dead = true;
        character.major_wound = false;
        push_alert(&mut additional, lang, LocaleTag::DeathInevitable);
    } else {
        if delta_res <= -(character.hp.max / 2) {
            character.major_wound = true;
            push_alert(&mut additional, lang, LocaleTag::MajorWound);
            if character.hp.current > 0 {
                push_line(&mut additional, lang, LocaleTag::YouFell);
                push_line(&mut additional, lang, LocaleTag::RollConCheckBlackOut);
            }
        }
        let ghost mid = additional@;
        if character.hp.current == 0 {
            if character.major_wound {
                push_bold_line(&mut additional, lang, LocaleTag::Agony);
                additional.append(locale_text_by_tag_lang(lang, LocaleTag::YouFell).as_str());
                push_line(&mut additional, lang, LocaleTag::YouBlackOut);
                push_line(&mut additional, lang, LocaleTag::RollConCheckDie);
            } else {
                push_bold_line(&mut additional, lang, LocaleTag::KnockOut);
                additional.append(locale_text_by_tag_lang(lang, LocaleTag::YouFell).as_str());
                push_line(&mut additional, lang, LocaleTag::YouBlackOut);
            }
        }
    }
    assert(character@ == spec_hp_after(c0, delta_res));
    assert(additional@ =~= spec_hp_consequences(c0, delta_res, lang));
    let mut d = String::from_str("❤️ **");
    push_signed(&mut d, delta_res as i64);
    d.append("** (");
    d.append(delta);
    d.append(")\n");
    let status = character.status_hp();
    d.append(status.as_str());
    d.append(additional.as_str());
    MessageContent { title: title_of(character), description: d, footer: String::new(), colour: None }
}

/// Rolls `delta` and applies it to the hit points.
pub fn hp_impl(character: &mut Character, delta: &str, lang: LocaleLang) -> (r: Result<MessageContent, RollError>)
    requires
        spec_query_rollable(delta@),
        old(character).hp.max >= 0,
        i32::MIN + spec_query_bound(delta@) <= old(character).hp.current,
        old(character).hp.current + spec_query_bound(delta@) <= i32::MAX,
    ensures
        r is Ok <==> spec_roll_parse(delta@) is Some,
        r is Err ==> final(character)@ == old(character)@,
        r matches Ok(m) ==> exists|dice: Seq<Seq<i32>>| {
            let d = spec_merged(spec_outcome_views(spec_roll_parse(delta@)->0, dice)).result;
            &&& #[trigger] spec_dice_fit(spec_roll_parse(delta@)->0, dice)
            &&& final(character)@ == spec_hp_after(old(character)@, d)
            &&& m@ == spec_hp_message(old(character)@, d, delta@, lang)
        },
{
    let mut rng = RealRng::new();
    let roll_result = match roll_impl(&mut rng, delta) {
        Ok(r) => r,
        Err(e) => {
            return Err(e);
        },
    };
    let delta_res = roll_result.result_real();
    Ok(hp_apply(character, delta_res, delta, lang))
}

/// Why a change of luck was refused.
#[derive(Debug, Clone, Copy, PartialEq, Eq)]
pub enum LuckError {
    /// The change would spend more luck than the character has.
    CantSpendLuck,
    /// The change does not read as a roll.
    Roll(RollError),
}

/// The sheet after a change of `d` luck points.
pub open spec fn spec_luck_after(c: CharacterView, d: i32) -> CharacterView {
    CharacterView { luck: CharacterVariable { current: spec_clamp(c.luck.current + d, 0, c.luck.max as int) as i32, ..c.luck }, ..c }
}

/// The message of a change of `d` luck points, asked for as `delta`.
pub open spec fn spec_luck_message(c: CharacterView, d: i32, delta: Seq<char>) -> MessageView {
    MessageView {
        title: "`"@ + c.name + "`"@,
        description: "🍀 **"@ + spec_signed_str(d as int) + "** ("@ + delta + ")\n"@ + spec_status_luck(spec_luck_after(c, d)),
        footer: Seq::<char>::empty(),
        colour: None,
    }
}

/// Applies a change of `delta_res` luck points, rolled from `delta`; no
/// more luck can be spent than the character has.
pub fn luck_apply(character: &mut Character, delta_res: i32, delta: &str) -> (r: Result<MessageContent, LuckError>)
    requires
        old(character).luck.max >= 0,
        old(character).luck.current + delta_res <= i32::MAX,
    ensures
        r is Err <==> delta_res < -old(character).luck.current,
        r is Err ==> r == Err::<MessageContent, LuckError>(LuckError::CantSpendLuck) && final(character)@ == old(character)@,
        r matches Ok(m) ==> final(character)@ == spec_luck_after(old(character)@, delta_res)
            && m@ == spec_luck_message(old(character)@, delta_res, delta@),
{
    if (delta_res as i64) < -(character.luck.current as i64) {
        return Err(LuckError::CantSpendLuck);
    }
    let ghost c0 = character@;
    character.luck.modify(delta_res);
    assert(character@ == spec_luck_after(c0, delta_res));
    let mut d = String::from_str("🍀 **");
    push_signed(&mut d, delta_res as i64);
    d.append("** (");
    d.append(delta);
    d.append(")\n");
    let status = character.status_luck();
    d.append(status.as_str());
    Ok(MessageContent { title: title_of(character), description: d, footer: String::new(), colour: None })
}

/// Rolls `delta` and applies it to the luck points.
pub fn luck_impl(character: &mut Character, delta: &str) -> (r: Result<MessageContent, LuckError>)
    requires
        spec_query_rollable(delta@),
        old(character).luck.max >= 0,
        old(character).luck.current + spec_query_bound(delta@) <= i32::MAX,
    ensures
        r matches Err(LuckError::Roll(_)) <==> spec_roll_parse(delta@) is None,
        r is Err ==> final(character)@ == old(character)@,
        r matches Ok(m) ==> exists|dice: Seq<Seq<i32>>| {
            let d = spec_merged(spec_outcome_views(spec_roll_parse(delta@)->0, dice)).result;
            &&& #[trigger] spec_dice_fit(spec_roll_parse(delta@)->0, dice)
            &&& d >= -old(character)@.luck.current
            &&& final(character)@ == spec_luck_after(old(character)@, d)
            &&& m@ == spec_luck_message(old(character)@, d, delta@)
        },
        r matches Err(LuckError::CantSpendLuck) ==> exists|dice: Seq<Seq<i32>>|
            #[trigger] spec_dice_fit(spec_roll_parse(delta@)->0, dice)
                && spec_merged(spec_outcome_views(spec_roll_parse(delta@)->0, dice)).result < -old(character)@.luck.current,
{
    let mut rng = RealRng::new();
    let roll_result = match roll_impl(&mut rng, delta) {
        Ok(r) => r,
        Err(e) => {
            return Err(LuckError::Roll(e));
        },
    };
    let delta_res = roll_result.result_real();
    luck_apply(character, delta_res, delta)
}

/// The dice that luck gains after a luck improvement test, as a number of
/// d10, a bonus and the query: a pulp hero gains more, and gains even after
/// a failed test.
pub open spec fn spec_luck_gain_dice(pulp: bool, improved: bool) -> Option<(i32, i32, Seq<char>)> {
    if pulp && improved {
        Some((2, 10, "2d10+10"@))
    } else if pulp {
        Some((1, 5, "1d10+5"@))
    } else if improved {
        Some((1, 0, "1d10"@))
    } else {
        None
    }
}

/// The message of a luck improvement test, with the luck gained if any.
pub open spec fn spec_luck_improve_message(lang: LocaleLang, c: CharacterView, ir: ImproveResult, gain: int) -> MessageView {
    let m = spec_improve_message(lang, ir);
    match spec_luck_gain_dice(c.pulp_archetype is Some, ir.success_level == SuccessLevel::Success) {
        Some((_, _, q)) => MessageView {
            description: m.description + "\n🍀 **"@ + spec_signed_str(gain) + "** ("@ + spec_localised_dice(q, lang) + ")\n"@
                + spec_status_luck(spec_luck_after(c, gain as i32)),
            ..m
        },
        None => m,
    }
}

/// Settles a luck improvement test: where the test and the character call
/// for it, luck changes by `gain`, rolled on the dice of
/// `spec_luck_gain_dice`.
pub fn improve_luck_apply(character: &mut Character, lang: LocaleLang, improve_result: &ImproveResult, gain: i32) -> (r: MessageContent)
    requires
        old(character).luck.max >= 0,
        i32::MIN <= old(character).luck.current + gain <= i32::MAX,
    ensures
        r@ == spec_luck_improve_message(lang, old(character)@, *improve_result, gain as int),
        final(character)@ == (if spec_luck_gain_dice(old(character)@.pulp_archetype is Some, improve_result.success_level == SuccessLevel::Success) is Some {
            spec_luck_after(old(character)@, gain)
        } else {
            old(character)@
        }),
{
    let mut mc = MessageContent::from_improve(lang, improve_result);
    let pulp = character.pulp_archetype.is_some();
    let improved = improve_result.success_level == SuccessLevel::Success;
    let query = if pulp && improved {
        "2d10+10"
    } else if pulp {
        "1d10+5"
    } else if improved {
        "1d10"
    } else {
        return mc;
    };
    let ghost c0 = character@;
    character.luck.modify(gain);
    assert(character@ == spec_luck_after(c0, gain));
    mc.description.append("\n🍀 **");
    push_signed(&mut mc.description, gain as i64);
    mc.description.append("** (");
    let q = localised_dice(query, lang);
    mc.description.append(q.as_str());
    mc.description.append(")\n");
    let status = character.status_luck();
    mc.description.append(status.as_str());
    mc
}

/// A luck improvement test that rolled `roll`, and `dice` for the gain
/// where there is one: the sheet after it and its message.
pub open spec fn spec_luck_improvement(lang: LocaleLang, c: CharacterView, roll: i32, dice: Seq<i32>, after: CharacterView, m: MessageView) -> bool {
    let ir = ImproveResult::spec_new(c.luck.current, roll);
    &&& 1 <= roll <= 100
    &&& match spec_luck_gain_dice(c.pulp_archetype is Some, ir.success_level == SuccessLevel::Success) {
        Some((n, b, _)) => {
            let gain = spec_roll_total(dice, Multiplier { negative: false, numer: 1, denom: 1 }, b as int);
            &&& spec_valid_dice(n as int, 10, Multiplier { negative: false, numer: 1, denom: 1 }, dice)
            &&& after == spec_luck_after(c, gain as i32)
            &&& m == spec_luck_improve_message(lang, c, ir, gain)
        },
        None => after == c && m == spec_luck_improve_message(lang, c, ir, 0),
    }
}

/// What a luck improvement test gains, by the character and the test: a
/// pulp hero who passes gains two d10 and 10, one who fails one d10 and 5;
/// anyone else gains one d10 on a pass and nothing on a failure. The test
/// passes when the roll is above the current luck or above 95. Only the
/// current luck changes, kept between 0 and the maximum.
pub proof fn lemma_luck_improvement_gain(
    lang: LocaleLang,
    c: CharacterView,
    roll: i32,
    dice: Seq<i32>,
    after: CharacterView,
    m: MessageView,
)
    requires
        spec_luck_improvement(lang, c, roll, dice, after, m),
    ensures
        after == (CharacterView { luck: CharacterVariable { current: after.luck.current, ..c.luck }, ..c }),
        (c.pulp_archetype is Some || roll > c.luck.current || roll > 95)
            ==> forall|i: int| 0 <= i < dice.len() ==> 1 <= #[trigger] dice[i] <= 10,
        ({
            let passed = roll > c.luck.current || roll > 95;
            let pulp = c.pulp_archetype is Some;
            &&& pulp && passed ==> dice.len() == 2
                && after.luck.current == spec_clamp(c.luck.current + dice[0] + dice[1] + 10, 0, c.luck.max as int)
            &&& pulp && !passed ==> dice.len() == 1
                && after.luck.current == spec_clamp(c.luck.current + dice[0] + 5, 0, c.luck.max as int)
            &&& !pulp && passed ==> dice.len() == 1
                && after.luck.current == spec_clamp(c.luck.current + dice[0], 0, c.luck.max as int)
            &&& !pulp && !passed ==> after == c
        }),
{
    let one = Multiplier { negative: false, numer: 1, denom: 1 };
    let passed = roll > c.luck.current || roll > 95;
    if c.pulp_archetype is Some || passed {
        assert(spec_valid_dice(dice.len() as int, 10, one, dice));
        assert forall|i: int| 0 <= i < dice.len() implies 1 <= #[trigger] dice[i] <= 10 by {
            assert(1 <= one.spec_signum() * dice[i] <= 10);
        }
        if dice.len() == 2 {
            let d1 = dice.drop_last();
            assert(d1.drop_last() =~= Seq::<i32>::empty());
            assert(spec_sum(d1.drop_last()) == 0);
            assert(d1.last() == dice[0]);
            assert(spec_sum(d1) == dice[0]);
            assert(spec_sum(dice) == dice[0] + dice[1]);
        } else if dice.len() == 1 {
            assert(dice.drop_last() =~= Seq::<i32>::empty());
            assert(spec_sum(dice.drop_last()) == 0);
            assert(spec_sum(dice) == dice[0]);
        }
        assert(spec_sum(dice) >= 0);
        assert((spec_sum(dice) * 1 + 1 - 1) / 1 == spec_sum(dice));
        assert forall|b: int| spec_roll_total(dice, one, b) == spec_sum(dice) + b by {
            assert(spec_ceil_div(spec_sum(dice) * 1, 1) == spec_sum(dice));
        }
    }
}

/// A luck improvement test rolled with `rng`, and the luck it gains.
pub fn improve_luck<D: DiceRng>(rng: &mut D, character: &mut Character, lang: LocaleLang) -> (r: MessageContent)
    requires
        old(character).luck.max >= 0,
        i32::MIN + 31 <= old(character).luck.current <= i32::MAX - 31,
    ensures
        exists|roll: i32, dice: Seq<i32>| #[trigger] spec_luck_improvement(lang, old(character)@, roll, dice, final(character)@, r@)
            && final(rng).draws() == old(rng).draws().push((1i32, 100i32, roll))
                + spec_term_draws(10, Multiplier { negative: false, numer: 1, denom: 1 }, dice),
{
    let ir = improve_skill_with(rng, character.luck.current);
    let pulp = character.pulp_archetype.is_some();
    let improved = ir.success_level == SuccessLevel::Success;
    let one = Multiplier::one();
    let (count, bonus): (i32, i32) = if pulp && improved {
        (2, 10)
    } else if pulp {
        (1, 5)
    } else {
        (1, 0)
    };
    let ghost c0 = character@;
    if !pulp && !improved {
        let m = improve_luck_apply(character, lang, &ir, 0);
        assert(spec_luck_improvement(lang, c0, ir.result, Seq::<i32>::empty(), character@, m@));
        assert(rng.draws() =~= old(rng).draws().push((1i32, 100i32, ir.result))
            + spec_term_draws(10, Multiplier { negative: false, numer: 1, denom: 1 }, Seq::<i32>::empty()));
        return m;
    }
    let q = "";
    assert(spec_term_bound(count as int, 10, one, bonus as int) <= 31) by {
        assert(spec_dice_rolled(count as int) == count);
        assert(count * 10 * 1 / 1 == count * 10);
    }
    let res = roll_dice(rng, q, count, 10, one, bonus);
    let gain = res.result_real();
    let ghost dice = res@.rolls;
    let m = improve_luck_apply(character, lang, &ir, gain);
    assert(spec_luck_improvement(lang, c0, ir.result, dice, character@, m@));
    assert(one == Multiplier { negative: false, numer: 1, denom: 1 });
    m
}

/// The message of a change of `delta` magic points.
pub open spec fn spec_magic_message(c: CharacterView, delta: i32) -> MessageView {
    let after = CharacterView {
        magic: CharacterVariable { current: spec_clamp(c.magic.current + delta, 0, c.magic.max as int) as i32, ..c.magic },
        ..c
    };
    MessageView {
        title: "`"@ + c.name + "`"@,
        description: "🪄 **"@ + spec_signed_str(delta as int) + "**\n"@ + spec_status_magic(after),
        footer: Seq::<char>::empty(),
        colour: None,
    }
}

/// Changes the magic points by `delta`, between none and the maximum.
pub fn magic_apply(character: &mut Character, delta: i32) -> (r: MessageContent)
    requires
        old(character).magic.max >= 0,
        i32::MIN <= old(character).magic.current + delta <= i32::MAX,
    ensures
        final(character)@ == (CharacterView {
            magic: CharacterVariable {
                current: spec_clamp(old(character).magic.current + delta, 0, old(character).magic.max as int) as i32,
                ..old(character).magic
            },
            ..old(character)@
        }),
        r@ == spec_magic_message(old(character)@, delta),
{
    character.magic.modify(delta);
    let mut d = String::from_str("🪄 **");
    push_signed(&mut d, delta as i64);
    d.append("**\n");
    let status = character.status_magic();
    d.append(status.as_str());
    MessageContent { title: title_of(character), description: d, footer: String::new(), colour: None }
}

/// The end of a day: the current sanity becomes the session's start.
pub fn sleep_apply(character: &mut Character) -> (r: MessageContent)
    ensures
        final(character)@ == (CharacterView {
            sanity: CharacterVariable { initial: old(character).sanity.current, ..old(character).sanity },
            ..old(character)@
        }),
        r@ == (MessageView {
            title: "`"@ + old(character)@.name + "` has survived another day. 🎉"@,
            description: "Updating initial 🧠 Sanity: **"@ + spec_int_str(old(character).sanity.current as int) + "**/"@
                + spec_int_str(old(character).sanity.current as int),
            footer: Seq::<char>::empty(),
            colour: None,
        }),
{
    character.sanity.update_initial();
    let mut t = String::from_str("`");
    t.append(character.name.as_str());
    t.append("` has survived another day. 🎉");
    let mut d = String::from_str("Updating initial 🧠 Sanity: **");
    push_int(&mut d, character.sanity.current as i64);
    d.append("**/");
    push_int(&mut d, character.sanity.initial as i64);
    MessageContent { title: t, description: d, footer: String::new(), colour: None }
}

/// A change of a character's condition that the game master makes.
#[derive(Debug, Clone, Copy, PartialEq, Eq, Structural)]
pub enum GmCondition {
    Insane,
    Sane,
    Wounded,
    Healed,
    Dead,
    Revived,
}

/// The sheet after the game master's change.
pub open spec fn spec_gm_condition_after(c: CharacterView, change: GmCondition) -> CharacterView {
    match change {
        GmCondition::Insane => CharacterView { fragile_mind: true, ..c },
        GmCondition::Sane => CharacterView { fragile_mind: false, ..c },
        GmCondition::Wounded => CharacterView { major_wound: true, ..c },
        GmCondition::Healed => CharacterView { major_wound: false, ..c },
        GmCondition::Dead => CharacterView { dead: true, ..c },
        GmCondition::Revived => CharacterView { dead: false, ..c },
    }
}

/// The title of the game master's change of the character kept under `key`.
pub open spec fn spec_gm_condition_title(lang: LocaleLang, c: CharacterView, key: Seq<char>, change: GmCondition) -> Seq<char> {
    match change {
        GmCondition::Insane => "**`"@ + c.name + "` "@ + spec_tag_text(lang, LocaleTag::GoneMad) + "**"@,
        GmCondition::Sane => "**`"@ + c.name + "`, "@ + spec_tag_text(lang, LocaleTag::MindHealed) + "**"@,
        GmCondition::Wounded => "**`"@ + c.name + "`, "@ + spec_tag_text(lang, LocaleTag::BodyWounded) + "**"@,
        GmCondition::Healed => "**`"@ + c.name + "`, "@ + spec_tag_text(lang, LocaleTag::BodyHealed) + "**"@,
        GmCondition::Dead => "**`"@ + key + "` 💀**"@,
        GmCondition::Revived => "**`"@ + key + "` 🩵**"@,
    }
}

/// Applies the game master's change to the character kept under `key`.
pub fn gm_condition(character: &mut Character, key: &str, lang: LocaleLang, change: GmCondition) -> (r: MessageContent)
    ensures
        final(character)@ == spec_gm_condition_after(old(character)@, change),
        r@ == (MessageView {
            title: spec_gm_condition_title(lang, old(character)@, key@, change),
            description: Seq::<char>::empty(),
            footer: Seq::<char>::empty(),
            colour: None,
        }),
{
    let mut t = String::from_str("**`");
    match change {
        GmCondition::Dead | GmCondition::Revived => {
            t.append(key);
        },
        _ => {
            t.append(character.name.as_str());
        },
    }
    match change {
        GmCondition::Insane => {
            character.fragile_mind = true;
            t.append("` ");
            t.append(locale_text_by_tag_lang(lang, LocaleTag::GoneMad).as_str());
            t.append("**");
        },
        GmCondition::Sane => {
            character.fragile_mind = false;
            t.append("`, ");
            t.append(locale_text_by_tag_lang(lang, LocaleTag::MindHealed).as_str());
            t.append("**");
        },
        GmCondition::Wounded => {
            character.major_wound = true;
            t.append("`, ");
            t.append(locale_text_by_tag_lang(lang, LocaleTag::BodyWounded).as_str());
            t.append("**");
        },
        GmCondition::Healed => {
            character.major_wound = false;
            t.append("`, ");
            t.append(locale_text_by_tag_lang(lang, LocaleTag::BodyHealed).as_str());
            t.append("**");
        },
        GmCondition::Dead => {
            character.dead = true;
            t.append("` 💀**");
        },
        GmCondition::Revived => {
            character.dead = false;
            t.append("` 🩵**");
        },
    }
    MessageContent { title: t, description: String::new(), footer: String::new(), colour: None }
}

/// Applies a change of `delta_res` sanity points, rolled from `delta`: none
/// left is insanity, a loss of five or more threatens it, and falling below
/// four fifths of the session's start leaves a fragile mind.
pub fn san_apply(character: &mut Character, delta_res: i32, delta: &str, lang: LocaleLang) -> (r: MessageContent)
    requires
        old(character).sanity.max >= 0,
        i32::MIN <= old(character).sanity.current + delta_res <= i32::MAX,
    ensures
        final(character)@ == spec_sanity_after(old(character)@, delta_res),
        r@ == spec_sanity_message(old(character)@, delta_res, delta@, lang),
{
    let ghost c0 = character@;
    character.sanity.modify(delta_res);
    let mut additional = String::new();
    if character.sanity.current == 0 {
        character.insane = true;
        push_alert(&mut additional, lang, LocaleTag::MindShattered);
    } else if character.fragile_mind && delta_res < 0 {
        push_alert(&mut additional, lang, LocaleTag::TempInsanity);
    } else if delta_res <= -5 {
        push_alert(&mut additional, lang, LocaleTag::TempInsanityThreat);
        push_line(&mut additional, lang, LocaleTag::RollIntCheck);
    }
    let cur = character.sanity.current as i64;
    let init = character.sanity.initial as i64;
    let below = if init > 0 { 5 * cur < 4 * init } else if init < 0 { 5 * cur > 4 * init } else { cur < 0 };
    if below {
        character.fragile_mind = true;
        additional = String::new();
        push_alert(&mut additional, lang, LocaleTag::IndefInsanity);
    }
    assert(character@ == spec_sanity_after(c0, delta_res));
    assert(additional@ =~= spec_sanity_consequences(c0, delta_res, lang));
    let mut d = String::from_str("🧠 **");
    push_signed(&mut d, delta_res as i64);
    d.append("** (");
    d.append(delta);
    d.append(")\n");
    let status = character.status_sanity();
    d.append(status.as_str());
    d.append(additional.as_str());
    MessageContent { title: title_of(character), description: d, footer: String::new(), colour: None }
}

/// Rolls `delta` and applies it to sanity.
pub fn san_impl(character: &mut Character, delta: &str, lang: LocaleLang) -> (r: Result<MessageContent, RollError>)
    requires
        spec_query_rollable(delta@),
        old(character).sanity.max >= 0,
        i32::MIN + spec_query_bound(delta@) <= old(character).sanity.current,
        old(character).sanity.current + spec_query_bound(delta@) <= i32::MAX,
    ensures
        r is Ok <==> spec_roll_parse(delta@) is Some,
        r is Err ==> final(character)@ == old(character)@,
        r matches Ok(m) ==> exists|dice: Seq<Seq<i32>>| {
            let d = spec_merged(spec_outcome_views(spec_roll_parse(delta@)->0, dice)).result;
            &&& #[trigger] spec_dice_fit(spec_roll_parse(delta@)->0, dice)
            &&& final(character)@ == spec_sanity_after(old(character)@, d)
            &&& m@ == spec_sanity_message(old(character)@, d, delta@, lang)
        },
{
    let mut rng = RealRng::new();
    let roll_result = match roll_impl(&mut rng, delta) {
        Ok(r) => r,
        Err(e) => {
            return Err(e);
        },
    };
    let delta_res = roll_result.result_real();
    Ok(san_apply(character, delta_res, delta, lang))
}

} // verus!
