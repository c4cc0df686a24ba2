//! Skill tests: a d100 against a skill's value, with bonus and penalty dice.
use crate::roller::dice_rng::{DiceRng, RealRng};
use crate::roller::modifier_dice::{ModifierDice, ModifierDiceType};
use crate::roller::success_level::{spec_div_trunc, div_trunc, SuccessLevel};
use crate::locale::{lemma_remove_spaces_len, remove_spaces, spec_remove_spaces};
use crate::roller::query::{
    digits_end, digits_value_capped, lemma_digits_end_bounds, lemma_digits_value_nonneg, spec_digits_end, spec_digits_value,
};
use vstd::prelude::*;

verus! {

/// The outcome of a skill test.
#[derive(Debug)]
pub struct CrollResult {
    pub query: String,
    pub success_level: SuccessLevel,
    pub result: i32,
    pub one_roll: i32,
    pub ten_rolls: Vec<i32>,
    pub threshold: i32,
    pub modifier_dice: Option<ModifierDice>,
}

/// A skill test's outcome as plain values.
pub struct CrollView {
    pub query: Seq<char>,
    pub success_level: SuccessLevel,
    pub result: i32,
    pub one_roll: i32,
    pub ten_rolls: Seq<i32>,
    pub threshold: i32,
    pub modifier_dice: Option<ModifierDice>,
}

impl View for CrollResult {
    type V = CrollView;

    open spec fn view(&self) -> CrollView {
        CrollView {
            query: self.query@,
            success_level: self.success_level,
            result: self.result,
            one_roll: self.one_roll,
            ten_rolls: self.ten_rolls@,
            threshold: self.threshold,
            modifier_dice: self.modifier_dice,
        }
    }
}

impl Clone for CrollResult {
    fn clone(&self) -> (r: Self)
        ensures
            r@ == self@,
    {
        let tens = self.ten_rolls.clone();
        assert(tens@ =~= self.ten_rolls@);
        CrollResult {
            query: self.query.clone(),
            success_level: self.success_level,
            result: self.result,
            one_roll: self.one_roll,
            ten_rolls: tens,
            threshold: self.threshold,
            modifier_dice: self.modifier_dice,
        }
    }
}

/// The level of success of a d100 roll of `result` against a skill of
/// value `threshold`.
pub open spec fn spec_success_level(result: int, threshold: int) -> SuccessLevel {
    if result == 100 {
        SuccessLevel::CriticalFailure
    } else if result == 1 {
        SuccessLevel::CriticalSuccess
    } else if threshold < 50 && result >= 96 {
        SuccessLevel::CriticalFailure
    } else if result <= spec_div_trunc(threshold, 5) {
        SuccessLevel::ExtremeSuccess
    } else if result <= spec_div_trunc(threshold, 2) {
        SuccessLevel::HardSuccess
    } else if result <= threshold {
        SuccessLevel::Success
    } else {
        SuccessLevel::Failure
    }
}

/// The level of a roll from 1 to 100 against a skill, by how the roll
/// compares with the skill: 1 is a critical success; 100, or 96 and more
/// against a skill under 50, a fumble; otherwise a roll of at most a fifth of
/// the skill is extreme, of at most half hard, of at most the skill a
/// success, and a roll above the skill a failure.
pub proof fn lemma_success_level_by_roll(result: int, threshold: int)
    requires
        1 <= result <= 100,
    ensures
        spec_success_level(result, threshold) == SuccessLevel::CriticalSuccess <==> result == 1,
        spec_success_level(result, threshold) == SuccessLevel::CriticalFailure
            <==> (result == 100 || (threshold < 50 && result >= 96)),
        spec_success_level(result, threshold) == SuccessLevel::ExtremeSuccess
            <==> (1 < result < 100 && 5 * result <= threshold),
        spec_success_level(result, threshold) == SuccessLevel::HardSuccess
            <==> (1 < result < 100 && 5 * result > threshold && 2 * result <= threshold),
        spec_success_level(result, threshold) == SuccessLevel::Success
            <==> (1 < result < 100 && 2 * result > threshold && result <= threshold),
        spec_success_level(result, threshold) == SuccessLevel::Failure
            <==> (1 < result < 100 && result > threshold && !(threshold < 50 && result >= 96)),
{
    assert(result <= spec_div_trunc(threshold, 5) <==> 5 * result <= threshold);
    assert(result <= spec_div_trunc(threshold, 2) <==> 2 * result <= threshold);
}

/// The level of success of a d100 roll against a skill.
pub fn success_level_of(result: i32, threshold: i32) -> (r: SuccessLevel)
    ensures
        r == spec_success_level(result as int, threshold as int),
{
    if result == 100 {
        SuccessLevel::CriticalFailure
    } else if result == 1 {
        SuccessLevel::CriticalSuccess
    } else if threshold < 50 && result >= 96 {
        SuccessLevel::CriticalFailure
    } else if result <= div_trunc(threshold, 5) {
        SuccessLevel::ExtremeSuccess
    } else if result <= div_trunc(threshold, 2) {
        SuccessLevel::HardSuccess
    } else if result <= threshold {
        SuccessLevel::Success
    } else {
        SuccessLevel::Failure
    }
}

impl CrollResult {
    /// A skill test's outcome; its level of success follows from the roll
    /// and the skill's value.
    pub fn new(
        query: &str,
        threshold: i32,
        result: i32,
        one_roll: i32,
        ten_rolls: Vec<i32>,
        modifier_dice: Option<ModifierDice>,
    ) -> (r: Self)
        ensures
            r@ == (CrollView {
                query: query@,
                success_level: spec_success_level(result as int, threshold as int),
                result,
                one_roll,
                ten_rolls: ten_rolls@,
                threshold,
                modifier_dice,
            }),
    {
        CrollResult {
            query: String::from_str(query),
            threshold,
            result,
            one_roll,
            ten_rolls,
            modifier_dice,
            success_level: success_level_of(result, threshold),
        }
    }

    pub fn result(&self) -> (r: i32)
        ensures
            r == self@.result,
    {
        self.result
    }

    /// Replaces the roll, for instance after luck was spent, and updates
    /// the level of success.
    pub fn set_result(&mut self, result: i32)
        ensures
            final(self)@ == (CrollView {
                result,
                success_level: spec_success_level(result as int, old(self)@.threshold as int),
                ..old(self)@
            }),
    {
        self.result = result;
        self.success_level = success_level_of(result, self.threshold);
    }
}

/// Bonus and penalty dice cancel one for one; what is left, if anything.
pub open spec fn spec_reduce_modifier_dice(penalty_dice: int, bonus_dice: int) -> Option<ModifierDice> {
    if penalty_dice > bonus_dice {
        Some(ModifierDice { dice_type: ModifierDiceType::Penalty, count: (penalty_dice - bonus_dice) as i32 })
    } else if penalty_dice == bonus_dice {
        None
    } else {
        Some(ModifierDice { dice_type: ModifierDiceType::Bonus, count: (bonus_dice - penalty_dice) as i32 })
    }
}

pub fn reduce_modifier_dice(penalty_dice: i32, bonus_dice: i32) -> (r: Option<ModifierDice>)
    requires
        i32::MIN <= penalty_dice - bonus_dice <= i32::MAX,
        i32::MIN <= bonus_dice - penalty_dice <= i32::MAX,
    ensures
        r == spec_reduce_modifier_dice(penalty_dice as int, bonus_dice as int),
{
    if penalty_dice > bonus_dice {
        Some(ModifierDice::new(ModifierDiceType::Penalty, penalty_dice - bonus_dice))
    } else if penalty_dice == bonus_dice {
        None
    } else {
        Some(ModifierDice::new(ModifierDiceType::Bonus, bonus_dice - penalty_dice))
    }
}

/// A bonus die and a penalty die cancel each other.
pub proof fn lemma_bonus_and_penalty_cancel(penalty_dice: int, bonus_dice: int)
    ensures
        spec_reduce_modifier_dice(penalty_dice + 1, bonus_dice + 1) == spec_reduce_modifier_dice(penalty_dice, bonus_dice),
{
}

/// With bonus dice the tens die that counts is the lowest of those rolled,
/// with penalty dice the highest, each by the value it stands for.
pub proof fn lemma_pick_ten_extreme(tens: Seq<i32>, one: int, bonus: bool)
    requires
        tens.len() > 0,
    ensures
        exists|i: int| 0 <= i < tens.len() && spec_pick_ten(tens, one, bonus) == spec_tens_value(one, #[trigger] tens[i]),
        forall|i: int| 0 <= i < tens.len() ==> (if bonus {
            spec_pick_ten(tens, one, bonus) <= spec_tens_value(one, #[trigger] tens[i])
        } else {
            spec_pick_ten(tens, one, bonus) >= spec_tens_value(one, tens[i])
        }),
    decreases tens.len(),
{
    if tens.len() == 1 {
        assert(spec_pick_ten(tens, one, bonus) == spec_tens_value(one, tens[0]));
    } else {
        let d = tens.drop_last();
        lemma_pick_ten_extreme(d, one, bonus);
        assert forall|i: int| 0 <= i < d.len() implies #[trigger] d[i] == tens[i] by {}
        let i0 = choose|i: int| 0 <= i < d.len() && spec_pick_ten(d, one, bonus) == spec_tens_value(one, #[trigger] d[i]);
        let p = spec_pick_ten(d, one, bonus);
        let v = spec_tens_value(one, tens.last());
        if (bonus && v < p) || (!bonus && v > p) {
            assert(spec_pick_ten(tens, one, bonus) == spec_tens_value(one, tens[tens.len() - 1]));
        } else {
            assert(spec_pick_ten(tens, one, bonus) == spec_tens_value(one, tens[i0]));
        }
        assert forall|i: int| 0 <= i < tens.len() implies (if bonus {
            spec_pick_ten(tens, one, bonus) <= spec_tens_value(one, #[trigger] tens[i])
        } else {
            spec_pick_ten(tens, one, bonus) >= spec_tens_value(one, tens[i])
        }) by {
            if i < d.len() {
                assert(d[i] == tens[i]);
            }
        }
    }
}

/// The value that a tens die stands for: with a units die of 0, a tens die
/// of 0 stands for 100 (`00` and `0`), so it counts as ten tens.
pub open spec fn spec_tens_value(one: int, ten: i32) -> int {
    if one == 0 && ten == 0 { 10 } else { ten as int }
}

/// The tens die that counts: the lowest with bonus dice, the highest with
/// penalty dice, compared by the value each stands for.
pub open spec fn spec_pick_ten(tens: Seq<i32>, one: int, bonus: bool) -> int
    decreases tens.len(),
{
    if tens.len() == 0 {
        0
    } else if tens.len() == 1 {
        spec_tens_value(one, tens[0])
    } else {
        let p = spec_pick_ten(tens.drop_last(), one, bonus);
        let v = spec_tens_value(one, tens.last());
        if bonus {
            if v < p { v } else { p }
        } else {
            if v > p { v } else { p }
        }
    }
}

/// The tens of a skill test's roll: the first tens die without modifier
/// dice, else the picked one.
pub open spec fn spec_ten_result(one: int, tens: Seq<i32>, modifier: Option<ModifierDice>) -> int {
    match modifier {
        None => tens[0] as int,
        Some(md) => spec_pick_ten(tens, one, md.dice_type == ModifierDiceType::Bonus),
    }
}

/// The d100 value of a units die and a tens value: `00` with `0` is 100.
pub open spec fn spec_d100(one: int, ten: int) -> int {
    if one == 0 && ten == 0 { 100 } else { ten * 10 + one }
}

/// The number of tens dice that a skill test rolls.
pub open spec fn spec_tens_count(modifier: Option<ModifierDice>) -> int {
    match modifier {
        None => 1,
        Some(md) => 1 + md.count,
    }
}

/// The outcome of a skill test with the given dice.
pub open spec fn spec_croll(
    query: Seq<char>,
    threshold: i32,
    penalty_dice: i32,
    bonus_dice: i32,
    one: i32,
    tens: Seq<i32>,
) -> CrollView {
    let modifier = spec_reduce_modifier_dice(penalty_dice as int, bonus_dice as int);
    let result = spec_d100(one as int, spec_ten_result(one as int, tens, modifier));
    CrollView {
        query,
        success_level: spec_success_level(result, threshold as int),
        result: result as i32,
        one_roll: one,
        ten_rolls: tens,
        threshold,
        modifier_dice: modifier,
    }
}

/// The dice that a skill test may roll: a units die and tens dice, each
/// from 0 to 9, as many tens dice as the modifier dice ask for.
pub open spec fn spec_valid_croll_dice(penalty_dice: i32, bonus_dice: i32, one: i32, tens: Seq<i32>) -> bool {
    &&& 0 <= one <= 9
    &&& tens.len() == spec_tens_count(spec_reduce_modifier_dice(penalty_dice as int, bonus_dice as int))
    &&& forall|i: int| 0 <= i < tens.len() ==> 0 <= #[trigger] tens[i] <= 9
}

/// The tens die that counts, as `spec_pick_ten` states it.
fn pick_ten(tens: &Vec<i32>, one: i32, bonus: bool) -> (r: i32)
    requires
        tens@.len() >= 1,
        forall|i: int| 0 <= i < tens@.len() ==> 0 <= #[trigger] tens@[i] <= 9,
    ensures
        r == spec_pick_ten(tens@, one as int, bonus),
        0 <= r <= 10,
        one != 0 ==> r <= 9,
{
    let mut m: i32 = if one == 0 && tens[0] == 0 { 10 } else { tens[0] };
    let mut i: usize = 1;
    assert(tens@.take(1).drop_last() =~= Seq::<i32>::empty());
    while i < tens.len()
        invariant
            1 <= i <= tens@.len(),
            forall|k: int| 0 <= k < tens@.len() ==> 0 <= #[trigger] tens@[k] <= 9,
            m == spec_pick_ten(tens@.take(i as int), one as int, bonus),
            0 <= m <= 10,
            one != 0 ==> m <= 9,
        decreases tens@.len() - i,
    {
        let x = tens[i];
        let v: i32 = if one == 0 && x == 0 { 10 } else { x };
        if bonus {
            if v < m { m = v; }
        } else {
            if v > m { m = v; }
        }
        assert(tens@.take(i as int + 1).drop_last() =~= tens@.take(i as int));
        i += 1;
    }
    assert(tens@.take(tens@.len() as int) =~= tens@);
    m
}

/// A skill test with the given dice.
pub fn croll_with_dice(
    query: &str,
    threshold: i32,
    penalty_dice: i32,
    bonus_dice: i32,
    one_result: i32,
    ten_results: Vec<i32>,
) -> (r: CrollResult)
    requires
        i32::MIN <= penalty_dice - bonus_dice <= i32::MAX,
        i32::MIN <= bonus_dice - penalty_dice <= i32::MAX,
        spec_valid_croll_dice(penalty_dice, bonus_dice, one_result, ten_results@),
    ensures
        r@ == spec_croll(query@, threshold, penalty_dice, bonus_dice, one_result, ten_results@),
        1 <= r@.result <= 100,
{
    let modifier_dice = reduce_modifier_dice(penalty_dice, bonus_dice);
    let ten_result = match modifier_dice {
        None => ten_results[0],
        Some(md) => pick_ten(&ten_results, one_result, md.dice_type == ModifierDiceType::Bonus),
    };
    let result = if one_result == 0 && ten_result == 0 { 100 } else { ten_result * 10 + one_result };
    CrollResult::new(query, threshold, result, one_result, ten_results, modifier_dice)
}

/// The draws behind a skill test's dice: the units die, then each tens
/// die, every one from 0 to 9.
pub open spec fn spec_croll_draws(one: i32, tens: Seq<i32>) -> Seq<(i32, i32, i32)> {
    seq![(0i32, 9i32, one)] + Seq::new(tens.len(), |i: int| (0i32, 9i32, tens[i]))
}

/// A skill test with dice from `rng`.
pub fn croll_with<D: DiceRng>(
    rng: &mut D,
    query: &str,
    threshold: i32,
    penalty_dice: i32,
    bonus_dice: i32,
) -> (r: CrollResult)
    requires
        i32::MIN <= penalty_dice - bonus_dice <= i32::MAX,
        i32::MIN <= bonus_dice - penalty_dice <= i32::MAX,
    ensures
        spec_valid_croll_dice(penalty_dice, bonus_dice, r@.one_roll, r@.ten_rolls),
        r@ == spec_croll(query@, threshold, penalty_dice, bonus_dice, r@.one_roll, r@.ten_rolls),
        final(rng).draws() == old(rng).draws() + spec_croll_draws(r@.one_roll, r@.ten_rolls),
{
    let ghost d0 = rng.draws();
    let one_result = rng.random_range(0..=9);
    let first = rng.random_range(0..=9);
    let mut ten_results: Vec<i32> = Vec::new();
    ten_results.push(first);
    assert(rng.draws() =~= d0 + spec_croll_draws(one_result, ten_results@));
    let modifier_dice = reduce_modifier_dice(penalty_dice, bonus_dice);
    if let Some(md) = modifier_dice {
        let mut k: i32 = 0;
        while k < md.count
            invariant
                rng.draws() == d0 + spec_croll_draws(one_result, ten_results@),
                0 <= k <= md.count,
                ten_results@.len() == 1 + k,
                forall|i: int| 0 <= i < ten_results@.len() ==> 0 <= #[trigger] ten_results@[i] <= 9,
            decreases md.count - k,
        {
            let ghost before = ten_results@;
            let t = rng.random_range(0..=9);
            ten_results.push(t);
            assert(spec_croll_draws(one_result, ten_results@) =~= spec_croll_draws(one_result, before).push((0i32, 9i32, t)));
            assert(rng.draws() =~= d0 + spec_croll_draws(one_result, ten_results@));
            k += 1;
        }
    }
    croll_with_dice(query, threshold, penalty_dice, bonus_dice, one_result, ten_results)
}

/// Why a skill test could not be rolled.
#[derive(Debug, Clone, Copy, PartialEq, Eq, Structural)]
pub enum CrollError {
    NoTensDie,
}

/// A skill test with dice from the thread's generator.
pub fn croll(query: &str, threshold: i32, penalty_dice: i32, bonus_dice: i32) -> (r: Result<CrollResult, CrollError>)
    requires
        i32::MIN <= penalty_dice - bonus_dice <= i32::MAX,
        i32::MIN <= bonus_dice - penalty_dice <= i32::MAX,
    ensures
        r matches Ok(c) && spec_valid_croll_dice(penalty_dice, bonus_dice, c@.one_roll, c@.ten_rolls)
            && c@ == spec_croll(query@, threshold, penalty_dice, bonus_dice, c@.one_roll, c@.ten_rolls),
{
    let mut rng = RealRng::new();
    Ok(croll_with(&mut rng, query, threshold, penalty_dice, bonus_dice))
}

/// How many times `c` occurs in `s`.
pub open spec fn spec_count(s: Seq<char>, c: char) -> int
    decreases s.len(),
{
    if s.len() == 0 {
        0
    } else {
        spec_count(s.drop_last(), c) + if s.last() == c { 1int } else { 0int }
    }
}

/// A mark of a modifier die: `+` or `b` for a bonus die, `-` or `p` for a
/// penalty die.
pub open spec fn spec_is_die_mark(c: char) -> bool {
    c == '+' || c == 'b' || c == '-' || c == 'p'
}

/// A skill test query, spaces removed: a threshold in decimal digits that
/// fits an `i32`, then `+` or `b` for each bonus die and `-` or `p` for
/// each penalty die, in any order (`60++-`, `60ppb`). Gives the threshold,
/// the penalty dice and the bonus dice.
pub open spec fn spec_croll_query(q: Seq<char>) -> Option<(i32, int, int)> {
    let e = spec_digits_end(q, 0);
    let marks = q.subrange(e, q.len() as int);
    if e > 0 && (forall|i: int| 0 <= i < marks.len() ==> spec_is_die_mark(#[trigger] marks[i]))
        && spec_digits_value(q, 0, e) <= i32::MAX {
        Some((
            spec_digits_value(q, 0, e) as i32,
            spec_count(marks, '-') + spec_count(marks, 'p'),
            spec_count(marks, '+') + spec_count(marks, 'b'),
        ))
    } else {
        None
    }
}

/// A skill test query that does not read.
#[derive(Debug, Clone, Copy, PartialEq, Eq, Structural)]
pub enum CrollQueryError {
    InvalidQuery,
}

/// Reads a skill test query such as `60++-` or `60ppb` and makes the test.
pub fn croll_impl(query: &str) -> (r: Result<CrollResult, CrollQueryError>)
    requires
        query@.len() < i32::MAX,
    ensures
        match spec_croll_query(spec_remove_spaces(query@)) {
            None => r == Err::<CrollResult, CrollQueryError>(CrollQueryError::InvalidQuery),
            Some((t, p, b)) => r matches Ok(c) && spec_valid_croll_dice(p as i32, b as i32, c@.one_roll, c@.ten_rolls)
                && c@ == spec_croll(query@, t, p as i32, b as i32, c@.one_roll, c@.ten_rolls),
        },
{
    match croll_query_parts(query) {
        None => Err(CrollQueryError::InvalidQuery),
        Some((threshold, penalty, bonus)) => Ok(croll(query, threshold, penalty, bonus).unwrap()),
    }
}

/// Reads a skill test query: its threshold, penalty dice and bonus dice.
pub fn croll_query_parts(query: &str) -> (r: Option<(i32, i32, i32)>)
    requires
        query@.len() < i32::MAX,
    ensures
        match spec_croll_query(spec_remove_spaces(query@)) {
            None => r is None,
            Some((t, p, b)) => r == Some((t, p as i32, b as i32)) && 0 <= p <= query@.len() && 0 <= b <= query@.len()
                && query@.len() < i32::MAX,
        },
{
    let q = remove_spaces(query);
    let qs = q.as_str();
    let n = qs.unicode_len();
    proof {
        lemma_remove_spaces_len(query@);
        lemma_digits_end_bounds(qs@, 0);
    }
    let e = digits_end(qs, 0);
    if e == 0 {
        return None;
    }
    let ghost marks = qs@.subrange(e as int, n as int);
    let mut penalty: i32 = 0;
    let mut bonus: i32 = 0;
    let mut i: usize = e;
    assert(marks.take(0) =~= Seq::<char>::empty());
    while i < n
        invariant
            n == qs@.len(),
            qs@ == spec_remove_spaces(query@),
            e == spec_digits_end(qs@, 0),
            0 < e,
            n < i32::MAX,
            e <= i <= n,
            marks == qs@.subrange(e as int, n as int),
            forall|k: int| 0 <= k < i - e ==> spec_is_die_mark(#[trigger] marks[k]),
            penalty == spec_count(marks.take(i - e), '-') + spec_count(marks.take(i - e), 'p'),
            bonus == spec_count(marks.take(i - e), '+') + spec_count(marks.take(i - e), 'b'),
            0 <= penalty <= i - e,
            0 <= bonus <= i - e,
        decreases n - i,
    {
        let c = qs.get_char(i);
        if c != '+' && c != '-' && c != 'b' && c != 'p' {
            proof {
                let k = (i - e) as int;
                assert(marks[k] == c);
                assert(!(forall|j: int| 0 <= j < marks.len() ==> spec_is_die_mark(#[trigger] marks[j])));
                assert(qs@ == spec_remove_spaces(query@));
                assert(e == spec_digits_end(qs@, 0));
                assert(spec_croll_query(qs@) is None);
            }
            return None;
        }
        assert(marks.take(i - e + 1).drop_last() =~= marks.take(i - e));
        assert(marks.take(i - e + 1).last() == c);
        if c == '-' || c == 'p' {
            penalty = penalty + 1;
        } else {
            bonus = bonus + 1;
        }
        i += 1;
    }
    assert(marks.take(n - e) =~= marks);
    proof { lemma_digits_value_nonneg(qs@, 0, e as int); }
    let v = digits_value_capped(qs, 0, e);
    if v > 0x7FFF_FFFF {
        return None;
    }
    Some((v as i32, penalty, bonus))
}

} // verus!
