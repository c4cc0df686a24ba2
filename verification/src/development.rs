//! The development phase: every skill marked to improve is tested, loses
//! its mark, and on a success gains a roll of the improvement dice.
use crate::character::skill::{Skill, SkillError, SkillView};
use crate::locale::{locale_text_by_tag_lang, LocaleLang, LocaleTag};
use crate::message::{spec_bold, spec_tag_text, MessageContent, MessageView};
use crate::roller::dice_rng::DiceRng;
use crate::roller::improve_roll::{improve_skill_with, ImproveResult};
use crate::roller::roll::{
    lemma_concat_draws_empty, lemma_query_bound_nonneg, roll_impl, spec_concat_draws, spec_dice_fit, spec_merged,
    spec_outcome_views, spec_query_bound, spec_query_draws, spec_query_rollable, spec_roll_parse, spec_rolled, RollError,
    RollResultView,
};
use crate::roller::success_level::{spec_level_hex, spec_level_tag, SuccessLevel};
use crate::text::{push_int, push_signed, replace_char, spec_int_str, spec_replace, spec_signed_str};
use vstd::prelude::*;

verus! {

/// A skill takes part in the development phase: it can improve and is
/// marked to.
pub open spec fn spec_marked(s: SkillView) -> bool {
    s.improvable && s.to_improve
}

/// The improvement dice: those asked for, else a d6, written with `k` in
/// Polish.
pub open spec fn spec_improve_dice_text(asked: Option<Seq<char>>, lang: LocaleLang) -> Seq<char> {
    let d = match asked {
        Some(s) => s,
        None => "d6"@,
    };
    match lang {
        LocaleLang::Polski => spec_replace(d, 'd', "k"@),
        LocaleLang::English => d,
    }
}

/// The improvement dice of a development phase.
pub fn improve_dice_text(asked: Option<&str>, lang: LocaleLang) -> (r: String)
    ensures
        r@ == spec_improve_dice_text(
            match asked {
                Some(s) => Some(s@),
                None => None,
            },
            lang,
        ),
{
    let d = match asked {
        Some(s) => s,
        None => "d6",
    };
    match lang {
        LocaleLang::Polski => replace_char(d, 'd', "k"),
        LocaleLang::English => String::from_str(d),
    }
}

/// The message of an improvement test.
pub open spec fn spec_improve_message(lang: LocaleLang, ir: ImproveResult) -> MessageView {
    MessageView {
        title: spec_bold(spec_tag_text(lang, spec_level_tag(ir.success_level))),
        colour: Some(spec_level_hex(ir.success_level)),
        description: spec_bold(spec_int_str(ir.result as int)) + " / "@ + spec_int_str(ir.threshold as int),
        footer: Seq::<char>::empty(),
    }
}

/// The message of a skill that improved by `gain`.
pub open spec fn spec_developed_message(lang: LocaleLang, s: SkillView, ir: ImproveResult, gain: int, dice: Seq<char>) -> MessageView {
    let m = spec_improve_message(lang, ir);
    MessageView {
        title: m.title + "\n"@ + s.name.0,
        description: m.description + "\n"@ + spec_int_str(s.value as int) + " **"@ + spec_signed_str(gain) + "** = **"@
            + spec_int_str(s.value + gain) + "** ("@ + dice + ")"@,
        ..m
    }
}

/// Settles one skill's improvement test: the mark goes; a success adds
/// `gain`, rolled on `dice`, and is told, unless the skill is constant.
pub fn develop_skill(lang: LocaleLang, skill: &mut Skill, improve_result: &ImproveResult, gain: i32, dice: &str) -> (r: Result<Option<MessageContent>, SkillError>)
    requires
        i32::MIN <= old(skill).value + gain <= i32::MAX,
    ensures
        improve_result.success_level != SuccessLevel::Success ==> (r matches Ok(None)
            && final(skill)@ == (SkillView { to_improve: false, ..old(skill)@ })),
        improve_result.success_level == SuccessLevel::Success && old(skill).constant ==> (r matches Err(SkillError::Constant(n))
            && n@ == old(skill)@.name && final(skill)@ == (SkillView { to_improve: false, ..old(skill)@ })),
        improve_result.success_level == SuccessLevel::Success && !old(skill).constant ==> (r matches Ok(Some(m))
            && m@ == spec_developed_message(lang, old(skill)@, *improve_result, gain as int, dice@)
            && final(skill)@ == (SkillView { to_improve: false, value: (old(skill).value + gain) as i32, ..old(skill)@ })),
{
    skill.to_improve = false;
    if improve_result.success_level != SuccessLevel::Success {
        return Ok(None);
    }
    let before = skill.value;
    let after = before + gain;
    match skill.set(after) {
        Ok(()) => {},
        Err(e) => {
            return Err(e);
        },
    }
    let mut m = MessageContent::from_improve(lang, improve_result);
    m.title.append("\n");
    m.title.append(skill.name.en.as_str());
    m.description.append("\n");
    push_int(&mut m.description, before as i64);
    m.description.append(" **");
    push_signed(&mut m.description, gain as i64);
    m.description.append("** = **");
    push_int(&mut m.description, after as i64);
    m.description.append("** (");
    m.description.append(dice);
    m.description.append(")");
    Ok(Some(m))
}

/// Why a development phase stopped.
#[derive(Debug)]
pub enum DevelopError {
    /// The improvement dice do not read as a roll.
    Roll(RollError),
    /// An improved skill turned out to be constant.
    Skill(SkillError),
}

/// What the phase may do to a skill: a marked one loses its mark and gains
/// between nothing and the most the dice can give; others stay as they are.
pub open spec fn spec_developed(before: SkillView, after: SkillView, bound: int) -> bool {
    if spec_marked(before) {
        &&& after.name == before.name
        &&& !after.to_improve
        &&& after.improvable == before.improvable
        &&& after.default == before.default
        &&& after.constant == before.constant
        &&& before.value <= after.value <= before.value + bound
    } else {
        after == before
    }
}

/// The views of a list of skills.
pub open spec fn spec_skills_view(skills: Seq<Skill>) -> Seq<SkillView> {
    skills.map_values(|s: Skill| s@)
}

/// What a roll adds to a skill: its total, no less than zero.
pub open spec fn spec_gain(total: i32) -> int {
    if total > 0 { total as int } else { 0 }
}

/// A marked skill's improvement test rolled `roll`, and `rest` are the
/// draws after it: on a success they are a roll of `dice`, whose total the
/// skill gains; on a failure there are none and the value stays. Either way
/// the mark goes.
pub open spec fn spec_test_then(before: SkillView, after: SkillView, roll: i32, rest: Seq<(i32, i32, i32)>, dice: Seq<char>) -> bool {
    &&& 1 <= roll <= 100
    &&& if ImproveResult::spec_new(before.value, roll).success_level == SuccessLevel::Success {
        exists|rv: RollResultView| #[trigger] spec_rolled(dice, rv, rest)
            && after == (SkillView { to_improve: false, value: (before.value + spec_gain(rv.result)) as i32, ..before })
    } else {
        rest.len() == 0 && after == (SkillView { to_improve: false, ..before })
    }
}

/// One skill's part in a development phase, made with the draws `seg`: a
/// skill that is not marked draws nothing and stays; a marked one draws its
/// improvement test from 1 to 100 first.
pub open spec fn spec_develop_step(before: SkillView, after: SkillView, seg: Seq<(i32, i32, i32)>, dice: Seq<char>) -> bool {
    if !spec_marked(before) {
        after == before && seg.len() == 0
    } else {
        exists|roll: i32, rest: Seq<(i32, i32, i32)>| #[trigger] spec_test_then(before, after, roll, rest, dice)
            && seg == seq![(1i32, 100i32, roll)] + rest
    }
}

/// Each skill took its part with its own draws, skill after skill, and the
/// draws went from `d_before` to `d_after`.
pub open spec fn spec_development_segs(
    before: Seq<SkillView>,
    after: Seq<SkillView>,
    dice: Seq<char>,
    segs: Seq<Seq<(i32, i32, i32)>>,
    d_before: Seq<(i32, i32, i32)>,
    d_after: Seq<(i32, i32, i32)>,
) -> bool {
    &&& after.len() == before.len()
    &&& segs.len() == before.len()
    &&& d_after == d_before + spec_concat_draws(segs)
    &&& forall|j: int| 0 <= j < before.len() ==> spec_develop_step(before[j], #[trigger] after[j], segs[j], dice)
}

/// A whole development phase: the skills go from `before` to `after`, and
/// the draws from `d_before` to `d_after`.
pub open spec fn spec_development(
    before: Seq<SkillView>,
    after: Seq<SkillView>,
    dice: Seq<char>,
    d_before: Seq<(i32, i32, i32)>,
    d_after: Seq<(i32, i32, i32)>,
) -> bool {
    exists|segs: Seq<Seq<(i32, i32, i32)>>| #[trigger] spec_development_segs(before, after, dice, segs, d_before, d_after)
}

/// A skill after a development phase that stopped on an error: developed,
/// or as it was.
pub open spec fn spec_developed_or_kept(before: SkillView, after: SkillView, bound: int) -> bool {
    spec_developed(before, after, bound) || after == before
}

/// Some skill of the list is marked to improve.
pub open spec fn spec_any_marked(skills: Seq<Skill>) -> bool {
    exists|j: int| 0 <= j < skills.len() && #[trigger] spec_marked(skills[j]@)
}

/// Some skill marked to improve is constant.
pub open spec fn spec_marked_constant(skills: Seq<Skill>) -> bool {
    exists|j: int| 0 <= j < skills.len() && #[trigger] spec_marked(skills[j]@) && skills[j].constant
}

/// The development phase over the skills, with improvement dice `dice`:
/// the messages of the skills that improved, and whether no skill was
/// marked at all, in which case the one message says so.
///
/// The phase succeeds whenever no skill is marked, and whenever the dice
/// read as a roll and no marked skill is constant. It stops with
/// `Roll` only when some skill is marked and the dice do not read as a
/// roll, and with `Skill` only when some marked skill is constant; which
/// of them comes, if any, rests on the improvement tests' dice.
pub fn develop_skills<D: DiceRng>(rng: &mut D, lang: LocaleLang, skills: &mut Vec<Skill>, dice: &str) -> (r: Result<(Vec<MessageContent>, bool), DevelopError>)
    requires
        spec_query_rollable(dice@),
        forall|j: int| 0 <= j < old(skills)@.len() && #[trigger] spec_marked(old(skills)@[j]@)
            ==> old(skills)@[j].value + spec_query_bound(dice@) <= i32::MAX,
    ensures
        final(skills)@.len() == old(skills)@.len(),
        !spec_any_marked(old(skills)@) ==> (r matches Ok((_, true)) && final(skills)@ == old(skills)@),
        spec_roll_parse(dice@) is Some && !spec_marked_constant(old(skills)@) ==> r is Ok,
        r matches Ok((msgs, none_marked)) ==> {
            &&& none_marked == !spec_any_marked(old(skills)@)
            &&& none_marked ==> msgs@.len() == 1 && msgs@[0]@ == (MessageView {
                title: spec_tag_text(lang, LocaleTag::NotMarked),
                description: Seq::<char>::empty(),
                footer: Seq::<char>::empty(),
                colour: None,
            })
            &&& !none_marked ==> msgs@.len() <= old(skills)@.len()
            &&& forall|j: int| 0 <= j < old(skills)@.len()
                ==> spec_developed(old(skills)@[j]@, #[trigger] final(skills)@[j]@, spec_query_bound(dice@))
        },
        r matches Err(DevelopError::Roll(_)) ==> spec_roll_parse(dice@) is None && spec_any_marked(old(skills)@),
        r matches Err(DevelopError::Skill(_)) ==> spec_marked_constant(old(skills)@),
        r is Err ==> forall|j: int| 0 <= j < old(skills)@.len()
            ==> spec_developed_or_kept(old(skills)@[j]@, #[trigger] final(skills)@[j]@, spec_query_bound(dice@)),
        r is Ok ==> spec_development(
            spec_skills_view(old(skills)@), spec_skills_view(final(skills)@), dice@, old(rng).draws(), final(rng).draws()),
{
    let ghost old_views = spec_skills_view(skills@);
    let ghost bound = spec_query_bound(dice@);
    proof {
        lemma_query_bound_nonneg(dice@);
    }
    let n = skills.len();
    let mut any = false;
    let mut k: usize = 0;
    while k < n
        invariant
            n == skills@.len(),
            k <= n,
            any == (exists|j: int| 0 <= j < k && #[trigger] spec_marked(skills@[j]@)),
        decreases n - k,
    {
        if skills[k].improvable && skills[k].to_improve {
            any = true;
            assert(spec_marked(skills@[k as int]@));
        } else {
            assert(!spec_marked(skills@[k as int]@));
        }
        k += 1;
    }
    if !any {
        let title = locale_text_by_tag_lang(lang, LocaleTag::NotMarked);
        let msgs = vec![MessageContent { title, description: String::new(), footer: String::new(), colour: None }];
        assert forall|j: int| 0 <= j < old(skills)@.len() implies spec_developed(old(skills)@[j]@, #[trigger] skills@[j]@, bound) by {
            assert(!spec_marked(skills@[j]@));
        }
        proof {
            let segs = Seq::new(n as nat, |j: int| Seq::<(i32, i32, i32)>::empty());
            lemma_concat_draws_empty(segs);
            let v = spec_skills_view(skills@);
            assert forall|j: int| 0 <= j < v.len() implies spec_develop_step(v[j], #[trigger] v[j], segs[j], dice@) by {
                assert(v[j] == skills@[j]@);
                assert(!spec_marked(skills@[j]@));
            }
            assert(rng.draws() =~= old(rng).draws() + spec_concat_draws(segs));
            assert(spec_development_segs(v, v, dice@, segs, old(rng).draws(), rng.draws()));
        }
        return Ok((msgs, true));
    }
    assert(spec_any_marked(old(skills)@));
    let mut msgs: Vec<MessageContent> = Vec::new();
    let mut i: usize = 0;
    let ghost d0 = rng.draws();
    let ghost mut segs: Seq<Seq<(i32, i32, i32)>> = Seq::empty();
    proof {
        assert(d0 + spec_concat_draws(segs) =~= d0);
    }
    while i < n
        invariant
            d0 == old(rng).draws(),
            segs.len() == i,
            rng.draws() == d0 + spec_concat_draws(segs),
            forall|j: int| 0 <= j < i ==> spec_develop_step(old_views[j], #[trigger] skills@[j]@, segs[j], dice@),
            n == skills@.len(),
            n == old_views.len(),
            old_views == spec_skills_view(old(skills)@),
            n == old(skills)@.len(),
            spec_any_marked(old(skills)@),
            bound == spec_query_bound(dice@),
            spec_query_rollable(dice@),
            bound >= 0,
            forall|j: int| 0 <= j < n && #[trigger] spec_marked(old_views[j])
                ==> old_views[j].value + bound <= i32::MAX,
            i <= n,
            msgs@.len() <= i,
            forall|j: int| i <= j < n ==> #[trigger] skills@[j]@ == old_views[j],
            forall|j: int| 0 <= j < i ==> spec_developed(old_views[j], #[trigger] skills@[j]@, bound),
        decreases n - i,
    {
        assert(skills@[i as int]@ == old_views[i as int]);
        assert(old_views[i as int] == old(skills)@[i as int]@);
        let ghost pre = rng.draws();
        let ghost bsegs = segs;
        if skills[i].improvable && skills[i].to_improve {
            let mut skill = skills[i].clone();
            assert(spec_marked(old_views[i as int]));
            assert(skill@ == old_views[i as int]);
            let ir = improve_skill_with(rng, skill.value);
            let ghost mid = rng.draws();
            let ghost mut rv: RollResultView = arbitrary();
            let mut gain: i32 = 0;
            if ir.success_level == SuccessLevel::Success {
                match roll_impl(rng, dice) {
                    Ok(res) => {
                        let g = res.result();
                        assert(0 <= g <= bound);
                        gain = g;
                        proof {
                            rv = res@;
                            let terms = spec_roll_parse(dice@)->0;
                            let dz = choose|dz: Seq<Seq<i32>>| spec_dice_fit(terms, dz)
                                && res@ == spec_merged(spec_outcome_views(terms, dz))
                                && rng.draws() == mid + spec_query_draws(terms, dz);
                            assert(rng.draws().skip(mid.len() as int) =~= spec_query_draws(terms, dz));
                            assert(spec_rolled(dice@, rv, rng.draws().skip(mid.len() as int)));
                        }
                    },
                    Err(e) => {
                        skill.to_improve = false;
                        let ghost sv = skill@;
                        let ghost before = skills@;
                        skills.set(i, skill);
                        assert forall|j: int| 0 <= j < n && j != i implies #[trigger] skills@[j]@ == before[j]@ by {}
                        assert(skills@[i as int]@ == sv);
                        assert(spec_developed(old_views[i as int], sv, bound));
                        assert forall|j: int| 0 <= j < old(skills)@.len() implies spec_developed_or_kept(
                            old(skills)@[j]@, #[trigger] skills@[j]@, bound) by {
                            assert(old_views[j] == old(skills)@[j]@);
                        }
                        return Err(DevelopError::Roll(e));
                    },
                }
            }
            assert(0 <= gain <= bound);
            let outcome = develop_skill(lang, &mut skill, &ir, gain, dice);
            let ghost sv = skill@;
            let ghost before = skills@;
            skills.set(i, skill);
            assert forall|j: int| 0 <= j < n && j != i implies #[trigger] skills@[j]@ == before[j]@ by {}
            assert(skills@[i as int]@ == sv);
            assert(spec_developed(old_views[i as int], sv, bound));
            proof {
                let roll = ir.result;
                let rest = rng.draws().skip(mid.len() as int);
                let before_v = old_views[i as int];
                if ir.success_level == SuccessLevel::Success {
                    if !before_v.constant {
                        assert(sv == (SkillView { to_improve: false, value: (before_v.value + spec_gain(rv.result)) as i32, ..before_v }));
                    }
                } else {
                    assert(rest.len() == 0);
                }
                if !(ir.success_level == SuccessLevel::Success && before_v.constant) {
                    assert(spec_test_then(before_v, sv, roll, rest, dice@));
                    assert(rng.draws().skip(pre.len() as int) =~= seq![(1i32, 100i32, roll)] + rest);
                    assert(spec_develop_step(before_v, sv, rng.draws().skip(pre.len() as int), dice@));
                    segs = segs.push(rng.draws().skip(pre.len() as int));
                    assert(segs.drop_last() =~= bsegs);
                    assert(rng.draws() =~= d0 + spec_concat_draws(segs));
                    assert forall|j: int| 0 <= j < i + 1 implies spec_develop_step(old_views[j], #[trigger] skills@[j]@, segs[j], dice@) by {
                        if j < i {
                            assert(segs[j] == bsegs[j]);
                        }
                    }
                }
            }
            match outcome {
                Ok(Some(m)) => {
                    msgs.push(m);
                },
                Ok(None) => {},
                Err(e) => {
                    assert(old(skills)@[i as int].constant);
                    assert(spec_marked(old(skills)@[i as int]@));
                    assert(spec_marked_constant(old(skills)@));
                    assert forall|j: int| 0 <= j < old(skills)@.len() implies spec_developed_or_kept(
                        old(skills)@[j]@, #[trigger] skills@[j]@, bound) by {
                        assert(old_views[j] == old(skills)@[j]@);
                    }
                    return Err(DevelopError::Skill(e));
                },
            }
        } else {
            proof {
                assert(!spec_marked(old_views[i as int]));
                segs = segs.push(Seq::<(i32, i32, i32)>::empty());
                assert(segs.drop_last() =~= bsegs);
                assert(rng.draws() =~= d0 + spec_concat_draws(segs));
                assert(spec_develop_step(old_views[i as int], skills@[i as int]@, segs[i as int], dice@));
                assert forall|j: int| 0 <= j < i + 1 implies spec_develop_step(old_views[j], #[trigger] skills@[j]@, segs[j], dice@) by {
                    if j < i {
                        assert(segs[j] == bsegs[j]);
                    }
                }
            }
        }
        i += 1;
    }
    assert forall|j: int| 0 <= j < old(skills)@.len() implies spec_developed(old(skills)@[j]@, #[trigger] skills@[j]@, bound) by {
        assert(old_views[j] == old(skills)@[j]@);
    }
    proof {
        let v = spec_skills_view(skills@);
        assert forall|j: int| 0 <= j < old_views.len() implies spec_develop_step(old_views[j], #[trigger] v[j], segs[j], dice@) by {
            assert(v[j] == skills@[j]@);
        }
        assert(spec_development_segs(old_views, v, dice@, segs, old(rng).draws(), rng.draws()));
    }
    Ok((msgs, false))
}

} // verus!
