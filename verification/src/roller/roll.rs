//! Generic dice rolls: `2d6`, `3k6x5+1`, `k10-k10`.
use crate::locale::{remove_spaces, spec_remove_spaces};
use crate::roller::dice_rng::DiceRng;
use crate::roller::query::{scan_token, spec_regex_views, spec_scan, spec_term_regex, TermValue};
use crate::utils::{spec_split_inclusive, split_inclusive};
use crate::text::{push_int, push_signed, spec_int_str, spec_signed_str};
use vstd::prelude::*;

verus! {

/// A decimal multiplier of a roll: `numer / denom`, negative when the dice
/// are subtracted. A zero multiplier keeps its sign.
#[derive(Debug, Clone, Copy, PartialEq, Eq, Structural)]
pub struct Multiplier {
    pub negative: bool,
    pub numer: u32,
    pub denom: u32,
}

impl Multiplier {
    pub open spec fn wf(self) -> bool {
        self.denom > 0
    }

    /// `+1` or `-1`: the sign that each die of the roll gets.
    pub open spec fn spec_signum(self) -> int {
        if self.negative { -1 } else { 1 }
    }

    pub fn one() -> (r: Multiplier)
        ensures
            r == (Multiplier { negative: false, numer: 1, denom: 1 }),
    {
        Multiplier { negative: false, numer: 1, denom: 1 }
    }

    /// The multiplier `value / 10^decimals`, or its opposite.
    pub fn new(negative: bool, numer: u32, denom: u32) -> (r: Multiplier)
        ensures
            r == (Multiplier { negative, numer, denom }),
    {
        Multiplier { negative, numer, denom }
    }

    pub fn signum(&self) -> (r: i32)
        ensures
            r == self.spec_signum(),
    {
        if self.negative { -1 } else { 1 }
    }
}

/// One term of a roll query: dice, a multiplier and a modifier.
#[derive(Debug, PartialEq)]
pub struct RollRegex {
    pub query: String,
    pub dice_count: i32,
    pub dice_sides: i32,
    pub multiplier: Multiplier,
    pub modifier: i32,
}

pub struct RollRegexView {
    pub query: Seq<char>,
    pub dice_count: i32,
    pub dice_sides: i32,
    pub multiplier: Multiplier,
    pub modifier: i32,
}

impl View for RollRegex {
    type V = RollRegexView;

    open spec fn view(&self) -> RollRegexView {
        RollRegexView {
            query: self.query@,
            dice_count: self.dice_count,
            dice_sides: self.dice_sides,
            multiplier: self.multiplier,
            modifier: self.modifier,
        }
    }
}

/// The canonical text of a term: `NdS` (with the multiplier's sign on the
/// count) where it has dice, then the modifier with its sign where it has one.
pub open spec fn spec_term_query(dice_count: int, dice_sides: int, multiplier: Multiplier, modifier: int) -> Seq<char> {
    (if dice_count != 0 {
        spec_int_str(multiplier.spec_signum() * dice_count) + seq!['d'] + spec_int_str(dice_sides)
    } else {
        Seq::<char>::empty()
    }) + (if modifier != 0 {
        spec_signed_str(modifier)
    } else {
        Seq::<char>::empty()
    })
}

impl RollRegex {
    pub fn new(dice_count: i32, dice_sides: i32, multiplier: Multiplier, modifier: i32) -> (r: Self)
        ensures
            r@ == (RollRegexView {
                query: spec_term_query(dice_count as int, dice_sides as int, multiplier, modifier as int),
                dice_count,
                dice_sides,
                multiplier,
                modifier,
            }),
    {
        let mut query = String::new();
        if dice_count != 0 {
            let signed_count: i64 = multiplier.signum() as i64 * dice_count as i64;
            push_int(&mut query, signed_count);
            query.append("d");
            proof { reveal_strlit("d"); }
            push_int(&mut query, dice_sides as i64);
        }
        if modifier != 0 {
            push_signed(&mut query, modifier as i64);
        }
        assert(query@ =~= spec_term_query(dice_count as int, dice_sides as int, multiplier, modifier as int));
        RollRegex { query, dice_count, dice_sides, multiplier, modifier }
    }
}

/// The outcome of a roll.
#[derive(Debug)]
pub struct RollResult {
    pub query: String,
    pub result: i32,
    pub rolls: Vec<i32>,
    pub modifier: i32,
    pub roll_msg: String,
}

pub struct RollResultView {
    pub query: Seq<char>,
    pub result: i32,
    pub rolls: Seq<i32>,
    pub modifier: i32,
    pub roll_msg: Seq<char>,
}

impl View for RollResult {
    type V = RollResultView;

    open spec fn view(&self) -> RollResultView {
        RollResultView {
            query: self.query@,
            result: self.result,
            rolls: self.rolls@,
            modifier: self.modifier,
            roll_msg: self.roll_msg@,
        }
    }
}

impl Clone for RollResult {
    fn clone(&self) -> (r: Self)
        ensures
            r@ == self@,
    {
        let rolls = self.rolls.clone();
        assert(rolls@ =~= self.rolls@);
        RollResult {
            query: self.query.clone(),
            result: self.result,
            rolls,
            modifier: self.modifier,
            roll_msg: self.roll_msg.clone(),
        }
    }
}

/// One die as the roll message shows it: `` `[4]` ``.
pub open spec fn spec_roll_item(r: int) -> Seq<char> {
    seq!['`', '['] + spec_int_str(r) + seq![']', '`']
}

/// The dice of a roll, shown one after another, separated by spaces.
pub open spec fn spec_rolls_text(rolls: Seq<i32>) -> Seq<char>
    decreases rolls.len(),
{
    if rolls.len() == 0 {
        Seq::<char>::empty()
    } else if rolls.len() == 1 {
        spec_roll_item(rolls[0] as int)
    } else {
        spec_rolls_text(rolls.drop_last()) + seq![' '] + spec_roll_item(rolls.last() as int)
    }
}

/// The message of a roll: its dice, then the modifier with its sign, if any.
pub open spec fn spec_roll_msg(rolls: Seq<i32>, modifier: int) -> Seq<char> {
    spec_rolls_text(rolls) + (if modifier != 0 {
        seq!['`'] + spec_signed_str(modifier) + seq!['`']
    } else {
        Seq::<char>::empty()
    })
}

fn push_roll_item(s: &mut String, r: i32)
    ensures
        final(s)@ == old(s)@ + spec_roll_item(r as int),
{
    s.append("`[");
    push_int(s, r as i64);
    s.append("]`");
    proof {
        reveal_strlit("`[");
        reveal_strlit("]`");
    }
    assert(final(s)@ =~= old(s)@ + spec_roll_item(r as int)) by {
        reveal_strlit("`[");
        reveal_strlit("]`");
    }
}

impl RollResult {
    pub fn new(query: &str, result: i32, rolls: Vec<i32>, modifier: i32) -> (r: Self)
        ensures
            r@ == (RollResultView {
                query: query@,
                result,
                rolls: rolls@,
                modifier,
                roll_msg: spec_roll_msg(rolls@, modifier as int),
            }),
    {
        let mut roll_msg = String::new();
        let mut i: usize = 0;
        proof { reveal_strlit(" "); }
        while i < rolls.len()
            invariant
                i <= rolls@.len(),
                roll_msg@ == spec_rolls_text(rolls@.take(i as int)),
            decreases rolls@.len() - i,
        {
            if i > 0 {
                roll_msg.append(" ");
            }
            push_roll_item(&mut roll_msg, rolls[i]);
            proof {
                reveal_strlit(" ");
                let t = rolls@.take(i as int + 1);
                assert(t.drop_last() =~= rolls@.take(i as int));
                assert(t.last() == rolls@[i as int]);
                assert(t.len() == i + 1);
                if i == 0 {
                    assert(rolls@.take(0) =~= Seq::<i32>::empty());
                    assert(t[0] == rolls@[0]);
                }
            }
            i += 1;
        }
        assert(rolls@.take(rolls@.len() as int) =~= rolls@);
        let ghost body = roll_msg@;
        if modifier != 0 {
            roll_msg.append("`");
            push_signed(&mut roll_msg, modifier as i64);
            roll_msg.append("`");
            proof { reveal_strlit("`"); }
        }
        assert(roll_msg@ =~= spec_roll_msg(rolls@, modifier as int));
        RollResult { query: String::from_str(query), result, rolls, modifier, roll_msg }
    }

    /// A roll of no dice: only a modifier.
    pub fn new_modifier(modifier: i32) -> (r: RollResult)
        ensures
            r@ == (RollResultView {
                query: spec_signed_str(modifier as int),
                result: modifier,
                rolls: Seq::<i32>::empty(),
                modifier,
                roll_msg: spec_roll_msg(Seq::<i32>::empty(), modifier as int),
            }),
    {
        let mut q = String::new();
        push_signed(&mut q, modifier as i64);
        assert(q@ =~= spec_signed_str(modifier as int));
        let rolls: Vec<i32> = Vec::new();
        RollResult::new(q.as_str(), modifier, rolls, modifier)
    }

    /// The total, negative values included.
    pub fn result_real(&self) -> (r: i32)
        ensures
            r == self.result,
    {
        self.result
    }

    /// The total, no less than zero.
    pub fn result(&self) -> (r: i32)
        ensures
            r == (if self.result > 0 { self.result } else { 0 }),
    {
        if self.result > 0 { self.result } else { 0 }
    }
}

/// `ceil(x / d)` for a positive `d`.
pub open spec fn spec_ceil_div(x: int, d: int) -> int {
    if x >= 0 {
        (x + d - 1) / d
    } else {
        -((-x) / d)
    }
}

/// The sum of the dice.
pub open spec fn spec_sum(rolls: Seq<i32>) -> int
    decreases rolls.len(),
{
    if rolls.len() == 0 {
        0
    } else {
        spec_sum(rolls.drop_last()) + rolls.last()
    }
}

/// The total of a roll: the sum of its dice, times the multiplier's size,
/// rounded up, plus the modifier.
pub open spec fn spec_roll_total(rolls: Seq<i32>, multiplier: Multiplier, modifier: int) -> int {
    spec_ceil_div(spec_sum(rolls) * multiplier.numer, multiplier.denom as int) + modifier
}

/// The modifier is added after the multiplier, never multiplied.
pub proof fn lemma_modifier_not_multiplied(rolls: Seq<i32>, multiplier: Multiplier, modifier: int)
    ensures
        spec_roll_total(rolls, multiplier, modifier) == spec_roll_total(rolls, multiplier, 0) + modifier,
{
}

/// How many dice a term rolls.
pub open spec fn spec_dice_rolled(dice_count: int) -> int {
    if dice_count > 0 { dice_count } else { 0 }
}

/// A bound on the size of the total of a term.
pub open spec fn spec_term_bound(dice_count: int, dice_sides: int, multiplier: Multiplier, modifier: int) -> int {
    spec_dice_rolled(dice_count) * dice_sides * multiplier.numer / (multiplier.denom as int) + 1
        + (if modifier >= 0 { modifier } else { -modifier })
}

/// A term can be rolled without overflow or an empty die.
pub open spec fn spec_term_rollable(dice_count: int, dice_sides: int, multiplier: Multiplier, modifier: int) -> bool {
    &&& multiplier.wf()
    &&& (dice_count <= 0 || dice_sides >= 1)
    &&& spec_term_bound(dice_count, dice_sides, multiplier, modifier) <= i32::MAX
}

proof fn lemma_total_bound(sum: int, n: int, numer: int, denom: int, modifier: int)
    requires
        -n <= sum <= n,
        0 <= n,
        0 <= numer,
        0 < denom,
    ensures
        -(n * numer / denom + 1) <= spec_ceil_div(sum * numer, denom) <= n * numer / denom + 1,
{
    let x = sum * numer;
    let b = n * numer;
    assert(-b <= x <= b) by (nonlinear_arith)
        requires
            -n <= sum <= n,
            0 <= numer,
            x == sum * numer,
            b == n * numer,
    ;
    assert(0 <= b);
    if x >= 0 {
        assert((x + denom - 1) / denom <= b / denom + 1) by (nonlinear_arith)
            requires
                0 <= x <= b,
                0 < denom,
        ;
        assert((x + denom - 1) / denom >= 0) by (nonlinear_arith)
            requires
                0 <= x,
                0 < denom,
        ;
    } else {
        assert((-x) / denom <= b / denom) by (nonlinear_arith)
            requires
                0 < -x <= b,
                0 < denom,
        ;
        assert((-x) / denom >= 0) by (nonlinear_arith)
            requires
                0 < -x,
                0 < denom,
        ;
    }
}

/// Dice that a term may roll: as many as it rolls, each between 1 and the
/// number of sides, signed as the multiplier is.
pub open spec fn spec_valid_dice(dice_count: int, dice_sides: int, multiplier: Multiplier, rolls: Seq<i32>) -> bool {
    &&& rolls.len() == spec_dice_rolled(dice_count)
    &&& forall|i: int| 0 <= i < rolls.len() ==> 1 <= #[trigger] (multiplier.spec_signum() * rolls[i]) <= dice_sides
}

/// The outcome of a term with the given dice.
pub open spec fn spec_dice_view(query: Seq<char>, rolls: Seq<i32>, multiplier: Multiplier, modifier: i32) -> RollResultView {
    RollResultView {
        query,
        result: spec_roll_total(rolls, multiplier, modifier as int) as i32,
        rolls,
        modifier,
        roll_msg: spec_roll_msg(rolls, modifier as int),
    }
}

proof fn lemma_sum_of_valid_dice(rolls: Seq<i32>, sides: int, multiplier: Multiplier)
    requires
        sides >= 0,
        forall|i: int| 0 <= i < rolls.len() ==> 1 <= #[trigger] (multiplier.spec_signum() * rolls[i]) <= sides,
    ensures
        -(rolls.len() * sides) <= spec_sum(rolls) <= rolls.len() * sides,
    decreases rolls.len(),
{
    if rolls.len() > 0 {
        let d = rolls.drop_last();
        assert forall|i: int| 0 <= i < d.len() implies 1 <= #[trigger] (multiplier.spec_signum() * d[i]) <= sides by {
            assert(d[i] == rolls[i]);
        }
        lemma_sum_of_valid_dice(d, sides, multiplier);
        assert(1 <= multiplier.spec_signum() * rolls[rolls.len() - 1] <= sides);
        assert(rolls.len() * sides == d.len() * sides + sides) by (nonlinear_arith)
            requires rolls.len() == d.len() + 1;
    }
}

/// Totals a term's dice.
pub fn dice_result(
    query: &str,
    rolls: Vec<i32>,
    dice_count: i32,
    dice_sides: i32,
    multiplier: Multiplier,
    modifier: i32,
) -> (r: RollResult)
    requires
        spec_term_rollable(dice_count as int, dice_sides as int, multiplier, modifier as int),
        spec_valid_dice(dice_count as int, dice_sides as int, multiplier, rolls@),
    ensures
        r@ == spec_dice_view(query@, rolls@, multiplier, modifier),
        spec_roll_total(rolls@, multiplier, modifier as int) == r@.result,
        -spec_term_bound(dice_count as int, dice_sides as int, multiplier, modifier as int) <= r@.result
            <= spec_term_bound(dice_count as int, dice_sides as int, multiplier, modifier as int),
{
    let ghost n = spec_dice_rolled(dice_count as int);
    proof {
        if n > 0 {
            lemma_sum_of_valid_dice(rolls@, dice_sides as int, multiplier);
        } else {
            assert(rolls@.len() == 0);
        }
        assert(n * dice_sides <= 0x4000_0000_0000_0000) by (nonlinear_arith)
            requires
                0 <= n <= i32::MAX,
                (n == 0 || 0 <= dice_sides <= i32::MAX),
        ;
        assert(n * dice_sides >= 0) by (nonlinear_arith)
            requires
                0 <= n,
                (n == 0 || 0 <= dice_sides),
        ;
    }
    let mut sum: i64 = 0;
    let mut i: usize = 0;
    while i < rolls.len()
        invariant
            i <= rolls@.len(),
            rolls@.len() == n,
            n == 0 || dice_sides >= 1,
            0 <= n * dice_sides <= 0x4000_0000_0000_0000,
            forall|k: int| 0 <= k < rolls@.len() ==> 1 <= #[trigger] (multiplier.spec_signum() * rolls@[k]) <= dice_sides,
            sum == spec_sum(rolls@.take(i as int)),
            -(i * dice_sides) <= sum <= i * dice_sides,
        decreases rolls@.len() - i,
    {
        let v = rolls[i];
        assert(1 <= multiplier.spec_signum() * rolls@[i as int] <= dice_sides);
        assert(rolls@.take(i as int + 1).drop_last() =~= rolls@.take(i as int));
        assert((i + 1) * dice_sides == i * dice_sides + dice_sides) by (nonlinear_arith);
        assert((i + 1) * dice_sides <= n * dice_sides) by (nonlinear_arith)
            requires i + 1 <= n, 0 <= dice_sides;
        sum = sum + v as i64;
        i += 1;
    }
    proof {
        assert(rolls@.take(rolls@.len() as int) =~= rolls@);
        assert(-0x4000_0000_0000_0000 * 0x1_0000_0000 <= sum * multiplier.numer <= 0x4000_0000_0000_0000 * 0x1_0000_0000) by (nonlinear_arith)
            requires
                -0x4000_0000_0000_0000 <= sum <= 0x4000_0000_0000_0000,
                0 <= multiplier.numer <= 0xFFFF_FFFF,
        ;
        lemma_total_bound(sum as int, n * dice_sides, multiplier.numer as int, multiplier.denom as int, modifier as int);
    }
    let prod: i128 = sum as i128 * multiplier.numer as i128;
    let d: i128 = multiplier.denom as i128;
    let scaled: i128 = if prod >= 0 { (prod + d - 1) / d } else { -((-prod) / d) };
    let result: i32 = (scaled + modifier as i128) as i32;
    RollResult::new(query, result, rolls, modifier)
}

/// An integer from `min` to `max`, both included, drawn with `rng`.
pub fn roll_range<D: DiceRng>(rng: &mut D, min: i32, max: i32) -> (r: i32)
    requires
        min <= max,
    ensures
        min <= r <= max,
        final(rng).draws() == old(rng).draws().push((min, max, r)),
{
    rng.random_range(min..=max)
}

/// A roll of a die of `sides` sides: one draw from 1 to `sides`.
pub fn roll_die<D: DiceRng>(rng: &mut D, sides: i32) -> (r: i32)
    requires
        sides >= 1,
    ensures
        1 <= r <= sides,
        final(rng).draws() == old(rng).draws().push((1i32, sides, r)),
{
    roll_range(rng, 1, sides)
}

/// The draws behind a term's dice: one draw from 1 to the number of sides
/// per die, whose value is the die without the multiplier's sign.
pub open spec fn spec_term_draws(dice_sides: int, multiplier: Multiplier, rolls: Seq<i32>) -> Seq<(i32, i32, i32)> {
    Seq::new(rolls.len(), |i: int| (1i32, dice_sides as i32, (multiplier.spec_signum() * rolls[i]) as i32))
}

/// The draws behind the dice of a query's terms, term after term.
pub open spec fn spec_query_draws(terms: Seq<TermValue>, dice: Seq<Seq<i32>>) -> Seq<(i32, i32, i32)>
    decreases dice.len(),
{
    if dice.len() == 0 || terms.len() == 0 {
        Seq::<(i32, i32, i32)>::empty()
    } else {
        spec_query_draws(terms.drop_last(), dice.drop_last())
            + spec_term_draws(terms.last().dice_sides as int, terms.last().multiplier, dice.last())
    }
}

/// The draws fix the dice: two sets of dice for the terms of a query that
/// come from the same draws are the same dice, so a roll is built from its
/// draws alone.
pub proof fn lemma_query_draws_fix_dice(terms: Seq<TermValue>, d1: Seq<Seq<i32>>, d2: Seq<Seq<i32>>)
    requires
        spec_dice_fit(terms, d1),
        spec_dice_fit(terms, d2),
        spec_query_draws(terms, d1) == spec_query_draws(terms, d2),
    ensures
        d1 == d2,
    decreases terms.len(),
{
    if terms.len() == 0 {
        assert(d1 =~= d2);
    } else {
        let t = terms.last();
        let n = terms.len() - 1;
        let p = terms.drop_last();
        assert(spec_valid_dice(terms[n].dice_count as int, terms[n].dice_sides as int, terms[n].multiplier, d1[n]));
        assert(spec_valid_dice(terms[n].dice_count as int, terms[n].dice_sides as int, terms[n].multiplier, d2[n]));
        assert forall|i: int| 0 <= i < p.len() implies spec_valid_dice(
            (#[trigger] p[i]).dice_count as int, p[i].dice_sides as int, p[i].multiplier, d1.drop_last()[i]) by {
            assert(p[i] == terms[i]);
            assert(spec_valid_dice(terms[i].dice_count as int, terms[i].dice_sides as int, terms[i].multiplier, d1[i]));
        }
        assert forall|i: int| 0 <= i < p.len() implies spec_valid_dice(
            (#[trigger] p[i]).dice_count as int, p[i].dice_sides as int, p[i].multiplier, d2.drop_last()[i]) by {
            assert(p[i] == terms[i]);
            assert(spec_valid_dice(terms[i].dice_count as int, terms[i].dice_sides as int, terms[i].multiplier, d2[i]));
        }
        let a1 = spec_query_draws(p, d1.drop_last());
        let a2 = spec_query_draws(p, d2.drop_last());
        let b1 = spec_term_draws(t.dice_sides as int, t.multiplier, d1.last());
        let b2 = spec_term_draws(t.dice_sides as int, t.multiplier, d2.last());
        assert(b1.len() == b2.len());
        assert(a1 + b1 == a2 + b2);
        assert(a1 =~= (a1 + b1).subrange(0, a1.len() as int));
        assert(a2 =~= (a2 + b2).subrange(0, a2.len() as int));
        assert(a1 =~= a2);
        lemma_query_draws_fix_dice(p, d1.drop_last(), d2.drop_last());
        assert forall|k: int| 0 <= k < d1.last().len() implies d1.last()[k] == d2.last()[k] by {
            assert(b1[k] == (a1 + b1)[a1.len() + k]);
            assert(b2[k] == (a2 + b2)[a2.len() + k]);
            assert(1 <= t.multiplier.spec_signum() * d1[n][k] <= t.dice_sides);
            assert(1 <= t.multiplier.spec_signum() * d2[n][k] <= t.dice_sides);
            assert(d1.last() == d1[n] && d2.last() == d2[n]);
            assert(b1[k].2 == (t.multiplier.spec_signum() * d1[n][k]) as i32);
            assert(b2[k].2 == (t.multiplier.spec_signum() * d2[n][k]) as i32);
            assert(t.multiplier.spec_signum() * d1[n][k] == t.multiplier.spec_signum() * d2[n][k]);
        }
        assert(d1.last() =~= d2.last());
        assert(d1 =~= d1.drop_last().push(d1.last()));
        assert(d2 =~= d2.drop_last().push(d2.last()));
    }
}

/// Rolls `dice_count` dice of `dice_sides` sides, each signed as the
/// multiplier is, and totals them.
pub fn roll_dice<D: DiceRng>(
    rng: &mut D,
    query: &str,
    dice_count: i32,
    dice_sides: i32,
    multiplier: Multiplier,
    modifier: i32,
) -> (r: RollResult)
    requires
        spec_term_rollable(dice_count as int, dice_sides as int, multiplier, modifier as int),
    ensures
        spec_valid_dice(dice_count as int, dice_sides as int, multiplier, r@.rolls),
        r@ == spec_dice_view(query@, r@.rolls, multiplier, modifier),
        spec_roll_total(r@.rolls, multiplier, modifier as int) == r@.result,
        -spec_term_bound(dice_count as int, dice_sides as int, multiplier, modifier as int) <= r@.result
            <= spec_term_bound(dice_count as int, dice_sides as int, multiplier, modifier as int),
        final(rng).draws() == old(rng).draws() + spec_term_draws(dice_sides as int, multiplier, r@.rolls),
{
    let mut rolled: Vec<i32> = Vec::new();
    let sign = multiplier.signum();
    let mut k: i32 = 0;
    let ghost d0 = rng.draws();
    proof {
        assert(spec_term_draws(dice_sides as int, multiplier, rolled@) =~= Seq::<(i32, i32, i32)>::empty());
        assert(d0 + Seq::<(i32, i32, i32)>::empty() =~= d0);
    }
    while k < dice_count
        invariant
            rng.draws() == d0 + spec_term_draws(dice_sides as int, multiplier, rolled@),
            0 <= k,
            dice_count > 0 ==> k <= dice_count,
            dice_count <= 0 ==> k == 0,
            dice_count <= 0 || dice_sides >= 1,
            rolled@.len() == k,
            sign == multiplier.spec_signum(),
            forall|i: int| 0 <= i < rolled@.len() ==> 1 <= #[trigger] (multiplier.spec_signum() * rolled@[i]) <= dice_sides,
        decreases dice_count - k,
    {
        let ghost before = rolled@;
        let die = roll_die(rng, dice_sides);
        rolled.push(sign * die);
        proof {
            assert(multiplier.spec_signum() * (sign * die) == die);
            assert(spec_term_draws(dice_sides as int, multiplier, rolled@) =~= spec_term_draws(dice_sides as int, multiplier, before).push(
                (1i32, dice_sides, die),
            ));
            assert(rng.draws() =~= d0 + spec_term_draws(dice_sides as int, multiplier, rolled@));
        }
        k += 1;
    }
    dice_result(query, rolled, dice_count, dice_sides, multiplier, modifier)
}

/// A roll of a term's dice with no query: used for characteristics.
pub fn roll_dice_no_query<D: DiceRng>(
    rng: &mut D,
    dice_count: i32,
    dice_sides: i32,
    multiplier: Multiplier,
    modifier: i32,
) -> (r: RollResult)
    requires
        spec_term_rollable(dice_count as int, dice_sides as int, multiplier, modifier as int),
    ensures
        spec_valid_dice(dice_count as int, dice_sides as int, multiplier, r@.rolls),
        r@ == spec_dice_view(Seq::<char>::empty(), r@.rolls, multiplier, modifier),
        -spec_term_bound(dice_count as int, dice_sides as int, multiplier, modifier as int) <= r@.result
            <= spec_term_bound(dice_count as int, dice_sides as int, multiplier, modifier as int),
{
    let q = "";
    proof {
        reveal_strlit("");
        assert(q@ =~= Seq::<char>::empty());
    }
    roll_dice(rng, q, dice_count, dice_sides, multiplier, modifier)
}

/// Why a roll query could not be read.
#[derive(Debug, Clone, Copy, PartialEq, Eq, Structural)]
pub enum RollError {
    /// A number of the query does not fit its type.
    InvalidNumber,
}

/// The views of a list of rolls.
pub open spec fn spec_result_views(s: Seq<RollResult>) -> Seq<RollResultView> {
    s.map_values(|r: RollResult| r@)
}

/// A term's text in a merged query: as it is when it starts with a sign,
/// else with a `+` in front.
pub open spec fn spec_query_piece(q: Seq<char>) -> Seq<char> {
    if q.len() > 0 && (q[0] == '+' || q[0] == '-') { q } else { seq!['+'] + q }
}

pub open spec fn spec_merged_query(s: Seq<RollResultView>) -> Seq<char>
    decreases s.len(),
{
    if s.len() == 0 {
        Seq::<char>::empty()
    } else {
        spec_merged_query(s.drop_last()) + spec_query_piece(s.last().query)
    }
}

pub open spec fn spec_results_sum(s: Seq<RollResultView>) -> int
    decreases s.len(),
{
    if s.len() == 0 {
        0
    } else {
        spec_results_sum(s.drop_last()) + s.last().result
    }
}

pub open spec fn spec_results_abs_sum(s: Seq<RollResultView>) -> int
    decreases s.len(),
{
    if s.len() == 0 {
        0
    } else {
        spec_results_abs_sum(s.drop_last()) + (if s.last().result >= 0 { s.last().result as int } else { -s.last().result })
    }
}

/// The roll messages, separated by spaces.
pub open spec fn spec_joined_msgs(s: Seq<RollResultView>) -> Seq<char>
    decreases s.len(),
{
    if s.len() == 0 {
        Seq::<char>::empty()
    } else if s.len() == 1 {
        s[0].roll_msg
    } else {
        spec_joined_msgs(s.drop_last()) + seq![' '] + s.last().roll_msg
    }
}

/// All dice of the rolls, in order.
pub open spec fn spec_all_rolls(s: Seq<RollResultView>) -> Seq<i32>
    decreases s.len(),
{
    if s.len() == 0 {
        Seq::<i32>::empty()
    } else {
        spec_all_rolls(s.drop_last()) + s.last().rolls
    }
}

/// The roll that several rolls make together.
pub open spec fn spec_merged(s: Seq<RollResultView>) -> RollResultView {
    RollResultView {
        query: spec_merged_query(s),
        result: spec_results_sum(s) as i32,
        rolls: spec_all_rolls(s),
        modifier: 0,
        roll_msg: spec_joined_msgs(s),
    }
}

proof fn lemma_sum_bounded(s: Seq<RollResultView>)
    ensures
        -spec_results_abs_sum(s) <= spec_results_sum(s) <= spec_results_abs_sum(s),
        spec_results_abs_sum(s) >= 0,
    decreases s.len(),
{
    if s.len() > 0 {
        lemma_sum_bounded(s.drop_last());
    }
}

proof fn lemma_abs_sum_prefix(s: Seq<RollResultView>, k: int)
    requires
        0 <= k <= s.len(),
    ensures
        spec_results_abs_sum(s.take(k)) <= spec_results_abs_sum(s),
    decreases s.len() - k,
{
    if k < s.len() {
        lemma_abs_sum_prefix(s, k + 1);
        assert(s.take(k + 1).drop_last() =~= s.take(k));
    } else {
        assert(s.take(k) =~= s);
    }
}

/// Puts several rolls together into one.
pub fn merge_roll_results(roll_results: &[RollResult]) -> (r: Result<RollResult, RollError>)
    requires
        spec_results_abs_sum(spec_result_views(roll_results@)) <= i32::MAX,
    ensures
        r matches Ok(m) && m@ == spec_merged(spec_result_views(roll_results@)),
{
    let ghost views = spec_result_views(roll_results@);
    let mut query = String::new();
    let mut result: i32 = 0;
    let mut rolls: Vec<i32> = Vec::new();
    let mut roll_msg = String::new();
    let mut i: usize = 0;
    proof {
        assert(views.take(0) =~= Seq::<RollResultView>::empty());
        assert(rolls@ =~= spec_all_rolls(views.take(0)));
    }
    while i < roll_results.len()
        invariant
            views == spec_result_views(roll_results@),
            spec_results_abs_sum(views) <= i32::MAX,
            i <= roll_results@.len(),
            query@ == spec_merged_query(views.take(i as int)),
            result == spec_results_sum(views.take(i as int)),
            rolls@ == spec_all_rolls(views.take(i as int)),
            roll_msg@ == spec_joined_msgs(views.take(i as int)),
        decreases roll_results@.len() - i,
    {
        let rr = &roll_results[i];
        let ghost t = views.take(i as int + 1);
        proof {
            assert(t.drop_last() =~= views.take(i as int));
            assert(t.last() == rr@);
            lemma_abs_sum_prefix(views, i as int + 1);
            lemma_sum_bounded(t);
            reveal_strlit("+");
            reveal_strlit(" ");
        }
        let q = rr.query.as_str();
        if q.unicode_len() > 0 && (q.get_char(0) == '+' || q.get_char(0) == '-') {
            query.append(q);
        } else {
            query.append("+");
            query.append(q);
        }
        result = result + rr.result;
        let mut j: usize = 0;
        let ghost before = rolls@;
        while j < rr.rolls.len()
            invariant
                j <= rr.rolls@.len(),
                rolls@ == before + rr.rolls@.take(j as int),
            decreases rr.rolls@.len() - j,
        {
            rolls.push(rr.rolls[j]);
            assert(rr.rolls@.take(j as int + 1) =~= rr.rolls@.take(j as int).push(rr.rolls@[j as int]));
            assert(rolls@ =~= before + rr.rolls@.take(j as int + 1));
            j += 1;
        }
        assert(rr.rolls@.take(rr.rolls@.len() as int) =~= rr.rolls@);
        if i > 0 {
            roll_msg.append(" ");
        }
        roll_msg.append(rr.roll_msg.as_str());
        proof {
            if i == 0 {
                assert(views.take(0) =~= Seq::<RollResultView>::empty());
                assert(t.len() == 1 && t[0] == rr@);
            }
            assert(query@ =~= spec_merged_query(t));
            assert(rolls@ =~= spec_all_rolls(t));
            assert(roll_msg@ =~= spec_joined_msgs(t));
        }
        i += 1;
    }
    proof {
        assert(views.take(roll_results@.len() as int) =~= views);
    }
    Ok(RollResult { query, result, rolls, modifier: 0, roll_msg })
}

/// The terms of a list of tokens, `None` where a number of one does not fit.
pub open spec fn spec_parse_tokens(toks: Seq<Seq<char>>) -> Option<Seq<TermValue>>
    decreases toks.len(),
{
    if toks.len() == 0 {
        Some(Seq::<TermValue>::empty())
    } else {
        match (spec_parse_tokens(toks.drop_last()), spec_scan(toks.last(), 0)) {
            (Some(a), Some(b)) => Some(a + b),
            _ => None,
        }
    }
}

/// The terms of a roll query: spaces removed, the text cut before each
/// `+` and `-`, each piece read term after term.
pub open spec fn spec_roll_parse(query: Seq<char>) -> Option<Seq<TermValue>> {
    spec_parse_tokens(spec_split_inclusive(spec_remove_spaces(query), seq!['+', '-']))
}

/// Reads the terms of a roll query.
pub fn roll_parse(query: &str) -> (r: Result<Vec<RollRegex>, RollError>)
    ensures
        r is Ok <==> spec_roll_parse(query@) is Some,
        r matches Ok(v) ==> spec_regex_views(v@)
            == spec_roll_parse(query@)->0.map_values(|t: TermValue| spec_term_regex(t)),
{
    let dice_stripped = remove_spaces(query);
    let mut pattern: Vec<char> = Vec::new();
    pattern.push('+');
    pattern.push('-');
    assert(pattern@ =~= seq!['+', '-']);
    let tokens = split_inclusive(dice_stripped.as_str(), pattern.as_slice());
    let ghost toks = spec_split_inclusive(spec_remove_spaces(query@), seq!['+', '-']);
    assert(tokens@.map_values(|p: &str| p@) == toks);
    let mut results: Vec<RollRegex> = Vec::new();
    let mut i: usize = 0;
    assert(toks.take(0) =~= Seq::<Seq<char>>::empty());
    assert(spec_regex_views(results@) =~= Seq::<TermValue>::empty().map_values(|t: TermValue| spec_term_regex(t)));
    while i < tokens.len()
        invariant
            toks == tokens@.map_values(|p: &str| p@),
            toks == spec_split_inclusive(spec_remove_spaces(query@), seq!['+', '-']),
            i <= tokens@.len(),
            spec_parse_tokens(toks.take(i as int)) is Some,
            spec_regex_views(results@)
                == spec_parse_tokens(toks.take(i as int))->0.map_values(|t: TermValue| spec_term_regex(t)),
        decreases tokens@.len() - i,
    {
        let ghost before = spec_regex_views(results@);
        let ghost prefix = spec_parse_tokens(toks.take(i as int))->0;
        let ok = scan_token(tokens[i], &mut results);
        proof {
            assert(toks.take(i as int + 1).drop_last() =~= toks.take(i as int));
            assert(toks.take(i as int + 1).last() == tokens@[i as int]@);
        }
        if !ok {
            proof {
                assert(spec_scan(toks.take(i as int + 1).last(), 0) is None);
                assert(spec_parse_tokens(toks.take(i as int + 1)) is None);
                lemma_parse_tokens_none(toks, i as int + 1);
                assert(spec_parse_tokens(toks) is None);
                assert(spec_roll_parse(query@) is None);
            }
            return Err(RollError::InvalidNumber);
        }
        proof {
            let tail = spec_scan(tokens@[i as int]@, 0)->0;
            assert((prefix + tail).map_values(|t: TermValue| spec_term_regex(t))
                =~= prefix.map_values(|t: TermValue| spec_term_regex(t)) + tail.map_values(|t: TermValue| spec_term_regex(t)));
        }
        i += 1;
    }
    assert(toks.take(tokens@.len() as int) =~= toks);
    Ok(results)
}

/// Once one token fails, the whole list fails.
proof fn lemma_parse_tokens_none(toks: Seq<Seq<char>>, k: int)
    requires
        0 <= k <= toks.len(),
        spec_parse_tokens(toks.take(k)) is None,
    ensures
        spec_parse_tokens(toks) is None,
    decreases toks.len() - k,
{
    if k < toks.len() {
        assert(toks.take(k + 1).drop_last() =~= toks.take(k));
        lemma_parse_tokens_none(toks, k + 1);
    } else {
        assert(toks.take(k) =~= toks);
    }
}

/// Every term can be rolled, and all of them together stay within `i32`.
pub open spec fn spec_terms_rollable(terms: Seq<TermValue>) -> bool {
    &&& forall|i: int| 0 <= i < terms.len() ==> {
        let t = #[trigger] terms[i];
        &&& spec_term_rollable(t.dice_count as int, t.dice_sides as int, t.multiplier, t.modifier as int)
        &&& t.dice_count >= 0
        &&& t.dice_sides >= 0
    }
    &&& spec_bounds_sum(terms) <= i32::MAX
}

pub open spec fn spec_value_bound(t: TermValue) -> int {
    spec_term_bound(t.dice_count as int, t.dice_sides as int, t.multiplier, t.modifier as int)
}

pub open spec fn spec_bounds_sum(terms: Seq<TermValue>) -> int
    decreases terms.len(),
{
    if terms.len() == 0 {
        0
    } else {
        spec_bounds_sum(terms.drop_last()) + spec_value_bound(terms.last())
    }
}

/// A bound on the size of the total of a query.
pub open spec fn spec_query_bound(query: Seq<char>) -> int {
    match spec_roll_parse(query) {
        Some(terms) => spec_bounds_sum(terms),
        None => 0,
    }
}

/// A query can be rolled: it does not parse, or its terms can be rolled.
pub open spec fn spec_query_rollable(query: Seq<char>) -> bool {
    match spec_roll_parse(query) {
        Some(terms) => spec_terms_rollable(terms),
        None => true,
    }
}

/// Dice for each term of a query.
pub open spec fn spec_dice_fit(terms: Seq<TermValue>, dice: Seq<Seq<i32>>) -> bool {
    &&& dice.len() == terms.len()
    &&& forall|i: int| 0 <= i < terms.len() ==> spec_valid_dice(
        (#[trigger] terms[i]).dice_count as int, terms[i].dice_sides as int, terms[i].multiplier, dice[i])
}

/// The outcome of each term with its dice.
pub open spec fn spec_outcome_views(terms: Seq<TermValue>, dice: Seq<Seq<i32>>) -> Seq<RollResultView> {
    Seq::new(terms.len(), |i: int| spec_dice_view(
        spec_term_query(terms[i].dice_count as int, terms[i].dice_sides as int, terms[i].multiplier, terms[i].modifier as int),
        dice[i], terms[i].multiplier, terms[i].modifier))
}

/// The terms of a query have non-negative counts and sides and can be rolled.
pub open spec fn spec_each_term_rollable(terms: Seq<TermValue>) -> bool {
    forall|i: int| 0 <= i < terms.len() ==> {
        let t = #[trigger] terms[i];
        &&& spec_term_rollable(t.dice_count as int, t.dice_sides as int, t.multiplier, t.modifier as int)
        &&& t.dice_count >= 0
        &&& t.dice_sides >= 0
    }
}

proof fn lemma_value_bound_positive(t: TermValue)
    requires
        spec_term_rollable(t.dice_count as int, t.dice_sides as int, t.multiplier, t.modifier as int),
        t.dice_count >= 0,
        t.dice_sides >= 0,
    ensures
        spec_value_bound(t) >= 1,
{
    let n = spec_dice_rolled(t.dice_count as int);
    assert(n * t.dice_sides * t.multiplier.numer >= 0) by (nonlinear_arith)
        requires n >= 0, t.dice_sides >= 0, t.multiplier.numer >= 0;
    assert(n * t.dice_sides * t.multiplier.numer / (t.multiplier.denom as int) >= 0) by (nonlinear_arith)
        requires n * t.dice_sides * t.multiplier.numer >= 0, t.multiplier.denom > 0;
}

/// The bound of a query that can be rolled is not negative.
pub proof fn lemma_query_bound_nonneg(query: Seq<char>)
    requires
        spec_query_rollable(query),
    ensures
        spec_query_bound(query) >= 0,
{
    if let Some(terms) = spec_roll_parse(query) {
        lemma_bounds_prefix(terms, 0);
    }
}

proof fn lemma_bounds_prefix(terms: Seq<TermValue>, k: int)
    requires
        0 <= k <= terms.len(),
        spec_each_term_rollable(terms),
    ensures
        0 <= spec_bounds_sum(terms.take(k)) <= spec_bounds_sum(terms),
    decreases terms.len() - k,
{
    lemma_bounds_nonneg_all(terms.take(k));
    if k < terms.len() {
        lemma_bounds_prefix(terms, k + 1);
        assert(terms.take(k + 1).drop_last() =~= terms.take(k));
        assert(terms.take(k + 1).last() == terms[k]);
        lemma_value_bound_positive(terms[k]);
    } else {
        assert(terms.take(k) =~= terms);
    }
}

proof fn lemma_bounds_nonneg_all(terms: Seq<TermValue>)
    requires
        forall|i: int| 0 <= i < terms.len() ==> {
            let t = #[trigger] terms[i];
            &&& spec_term_rollable(t.dice_count as int, t.dice_sides as int, t.multiplier, t.modifier as int)
            &&& t.dice_count >= 0
            &&& t.dice_sides >= 0
        },
    ensures
        spec_bounds_sum(terms) >= 0,
    decreases terms.len(),
{
    if terms.len() > 0 {
        let d = terms.drop_last();
        assert forall|i: int| 0 <= i < d.len() implies {
            let t = #[trigger] d[i];
            &&& spec_term_rollable(t.dice_count as int, t.dice_sides as int, t.multiplier, t.modifier as int)
            &&& t.dice_count >= 0
            &&& t.dice_sides >= 0
        } by {
            assert(d[i] == terms[i]);
        }
        lemma_bounds_nonneg_all(d);
        lemma_value_bound_positive(terms.last());
    }
}

/// Rolls the terms of a query with the given dice and totals them.
pub fn roll_with_dice(query: &str, dice: &Vec<Vec<i32>>) -> (r: Result<RollResult, RollError>)
    requires
        spec_query_rollable(query@),
        spec_roll_parse(query@) matches Some(terms) ==> spec_dice_fit(terms, dice@.map_values(|v: Vec<i32>| v@)),
    ensures
        r is Ok <==> spec_roll_parse(query@) is Some,
        r matches Ok(res) ==> res@ == spec_merged(spec_outcome_views(spec_roll_parse(query@)->0, dice@.map_values(|v: Vec<i32>| v@))),
{
    let regexes = match roll_parse(query) {
        Ok(v) => v,
        Err(e) => { return Err(e); },
    };
    let ghost terms = spec_roll_parse(query@)->0;
    let ghost dv = dice@.map_values(|v: Vec<i32>| v@);
    let mut results: Vec<RollResult> = Vec::new();
    let mut i: usize = 0;
    proof {
        assert(terms.take(0) =~= Seq::<TermValue>::empty());
        assert(spec_regex_views(regexes@).len() == regexes@.len());
    }
    while i < regexes.len()
        invariant
            spec_regex_views(regexes@) == terms.map_values(|t: TermValue| spec_term_regex(t)),
            spec_terms_rollable(terms),
            spec_dice_fit(terms, dv),
            dv == dice@.map_values(|v: Vec<i32>| v@),
            i <= regexes@.len(),
            regexes@.len() == terms.len(),
            spec_result_views(results@) == spec_outcome_views(terms.take(i as int), dv),
            spec_results_abs_sum(spec_result_views(results@)) <= spec_bounds_sum(terms.take(i as int)),
        decreases regexes@.len() - i,
    {
        let rr = &regexes[i];
        let ghost t = terms[i as int];
        proof {
            assert(spec_regex_views(regexes@)[i as int] == rr@);
            assert(rr@ == spec_term_regex(t));
            assert(dv[i as int] == dice@[i as int]@);
        }
        let rolls = dice[i].clone();
        assert(rolls@ =~= dv[i as int]);
        let res = dice_result(rr.query.as_str(), rolls, rr.dice_count, rr.dice_sides, rr.multiplier, rr.modifier);
        let ghost before = spec_result_views(results@);
        results.push(res);
        proof {
            assert(spec_result_views(results@) =~= before.push(res@));
            assert(terms.take(i as int + 1).drop_last() =~= terms.take(i as int));
            assert(terms.take(i as int + 1).last() == t);
            assert(spec_result_views(results@) =~= spec_outcome_views(terms.take(i as int + 1), dv));
            assert(spec_result_views(results@).drop_last() =~= before);
            lemma_bounds_prefix(terms, i as int + 1);
        }
        i += 1;
    }
    proof {
        assert(terms.take(terms.len() as int) =~= terms);
    }
    merge_roll_results(results.as_slice())
}

/// A roll of a query with some dice that fit it, drawn as `draws`: one
/// draw per die, term after term.
pub open spec fn spec_rolled(q: Seq<char>, r: RollResultView, draws: Seq<(i32, i32, i32)>) -> bool {
    exists|dice: Seq<Seq<i32>>| #[trigger] spec_dice_fit(spec_roll_parse(q)->0, dice)
        && r == spec_merged(spec_outcome_views(spec_roll_parse(q)->0, dice))
        && draws == spec_query_draws(spec_roll_parse(q)->0, dice)
}

/// The draws of several rolls, one after the other.
pub open spec fn spec_concat_draws(segs: Seq<Seq<(i32, i32, i32)>>) -> Seq<(i32, i32, i32)>
    decreases segs.len(),
{
    if segs.len() == 0 {
        Seq::<(i32, i32, i32)>::empty()
    } else {
        spec_concat_draws(segs.drop_last()) + segs.last()
    }
}

/// Rolls that draw nothing, one after the other, draw nothing.
pub proof fn lemma_concat_draws_empty(segs: Seq<Seq<(i32, i32, i32)>>)
    requires
        forall|j: int| 0 <= j < segs.len() ==> (#[trigger] segs[j]).len() == 0,
    ensures
        spec_concat_draws(segs) == Seq::<(i32, i32, i32)>::empty(),
    decreases segs.len(),
{
    if segs.len() > 0 {
        assert forall|j: int| 0 <= j < segs.drop_last().len() implies (#[trigger] segs.drop_last()[j]).len() == 0 by {
            assert(segs.drop_last()[j] == segs[j]);
        }
        lemma_concat_draws_empty(segs.drop_last());
        assert(segs.last().len() == 0);
        assert(spec_concat_draws(segs) =~= Seq::<(i32, i32, i32)>::empty());
    }
}

/// Rolls a query with dice from `rng`.
pub fn roll_impl<D: DiceRng>(rng: &mut D, query: &str) -> (r: Result<RollResult, RollError>)
    requires
        spec_query_rollable(query@),
    ensures
        r is Ok <==> spec_roll_parse(query@) is Some,
        r matches Ok(res) ==> exists|dice: Seq<Seq<i32>>|
            spec_dice_fit(spec_roll_parse(query@)->0, dice)
                && res@ == spec_merged(spec_outcome_views(spec_roll_parse(query@)->0, dice))
                && final(rng).draws() == old(rng).draws() + spec_query_draws(spec_roll_parse(query@)->0, dice),
        r matches Ok(res) ==> -spec_query_bound(query@) <= res@.result <= spec_query_bound(query@),
        r is Err ==> final(rng).draws() == old(rng).draws(),
{
    let regexes = match roll_parse(query) {
        Ok(v) => v,
        Err(e) => { return Err(e); },
    };
    let ghost terms = spec_roll_parse(query@)->0;
    let ghost mut dv: Seq<Seq<i32>> = Seq::empty();
    let ghost d0 = rng.draws();
    let mut results: Vec<RollResult> = Vec::new();
    let mut i: usize = 0;
    proof {
        assert(terms.take(0) =~= Seq::<TermValue>::empty());
        assert(spec_regex_views(regexes@).len() == regexes@.len());
        assert(d0 + spec_query_draws(terms.take(0), dv) =~= d0);
    }
    while i < regexes.len()
        invariant
            spec_regex_views(regexes@) == terms.map_values(|t: TermValue| spec_term_regex(t)),
            spec_terms_rollable(terms),
            i <= regexes@.len(),
            regexes@.len() == terms.len(),
            dv.len() == i,
            rng.draws() == d0 + spec_query_draws(terms.take(i as int), dv),
            spec_dice_fit(terms.take(i as int), dv),
            spec_result_views(results@) == spec_outcome_views(terms.take(i as int), dv),
            spec_results_abs_sum(spec_result_views(results@)) <= spec_bounds_sum(terms.take(i as int)),
        decreases regexes@.len() - i,
    {
        let rr = &regexes[i];
        let ghost t = terms[i as int];
        proof {
            assert(spec_regex_views(regexes@)[i as int] == rr@);
            assert(rr@ == spec_term_regex(t));
        }
        let res = roll_dice(rng, rr.query.as_str(), rr.dice_count, rr.dice_sides, rr.multiplier, rr.modifier);
        let ghost before = spec_result_views(results@);
        results.push(res);
        proof {
            let ndv = dv.push(res@.rolls);
            assert(spec_result_views(results@) =~= before.push(res@));
            assert(terms.take(i as int + 1).drop_last() =~= terms.take(i as int));
            assert(terms.take(i as int + 1).last() == t);
            assert forall|k: int| 0 <= k < i + 1 implies spec_valid_dice(
                (#[trigger] terms.take(i as int + 1)[k]).dice_count as int, terms.take(i as int + 1)[k].dice_sides as int,
                terms.take(i as int + 1)[k].multiplier, ndv[k]) by {
                if k < i {
                    assert(terms.take(i as int + 1)[k] == terms.take(i as int)[k]);
                }
            }
            assert(spec_result_views(results@) =~= spec_outcome_views(terms.take(i as int + 1), ndv));
            assert(spec_result_views(results@).drop_last() =~= before);
            lemma_bounds_prefix(terms, i as int + 1);
            assert(ndv.drop_last() =~= dv);
            assert(spec_query_draws(terms.take(i as int + 1), ndv) == spec_query_draws(terms.take(i as int), dv)
                + spec_term_draws(t.dice_sides as int, t.multiplier, res@.rolls));
            assert(rng.draws() =~= d0 + spec_query_draws(terms.take(i as int + 1), ndv));
            dv = ndv;
        }
        i += 1;
    }
    proof {
        assert(terms.take(terms.len() as int) =~= terms);
        lemma_sum_bounded(spec_result_views(results@));
    }
    merge_roll_results(results.as_slice())
}

/// The highest total a term can reach: its dice all at their sides,
/// times the multiplier, rounded toward zero, plus the modifier.
pub open spec fn spec_term_max(dice_count: int, dice_sides: int, multiplier: Multiplier, modifier: int) -> int {
    crate::roller::success_level::spec_div_trunc(
        multiplier.spec_signum() * dice_count * dice_sides * multiplier.numer, multiplier.denom as int) + modifier
}

/// A term of no dice whose modifier is the term's highest total.
pub fn rollregex_to_max(roll_regex: &RollRegex) -> (r: RollRegex)
    requires
        spec_term_rollable(roll_regex.dice_count as int, roll_regex.dice_sides as int, roll_regex.multiplier, roll_regex.modifier as int),
        roll_regex.dice_count >= 0,
        roll_regex.dice_sides >= 0,
    ensures
        r@ == (RollRegexView {
            query: spec_term_query(0, 0, Multiplier { negative: false, numer: 0, denom: 1 },
                spec_term_max(roll_regex.dice_count as int, roll_regex.dice_sides as int, roll_regex.multiplier, roll_regex.modifier as int)),
            dice_count: 0,
            dice_sides: 0,
            multiplier: Multiplier { negative: false, numer: 0, denom: 1 },
            modifier: spec_term_max(roll_regex.dice_count as int, roll_regex.dice_sides as int, roll_regex.multiplier, roll_regex.modifier as int) as i32,
        }),
        -spec_term_bound(roll_regex.dice_count as int, roll_regex.dice_sides as int, roll_regex.multiplier, roll_regex.modifier as int)
            <= spec_term_max(roll_regex.dice_count as int, roll_regex.dice_sides as int, roll_regex.multiplier, roll_regex.modifier as int)
            <= spec_term_bound(roll_regex.dice_count as int, roll_regex.dice_sides as int, roll_regex.multiplier, roll_regex.modifier as int),
{
    let count = roll_regex.dice_count as i128;
    let sides = roll_regex.dice_sides as i128;
    let numer = roll_regex.multiplier.numer as i128;
    let denom = roll_regex.multiplier.denom as i128;
    let ghost n = count * sides;
    proof {
        assert(0 <= count * sides <= 0x4000_0000_0000_0000) by (nonlinear_arith)
            requires 0 <= count <= i32::MAX, 0 <= sides <= i32::MAX;
        assert(0 <= count * sides * numer <= 0x4000_0000_0000_0000 * 0x1_0000_0000) by (nonlinear_arith)
            requires 0 <= count * sides <= 0x4000_0000_0000_0000, 0 <= numer <= 0xFFFF_FFFF;
        let x: int = count * sides * numer;
        let d: int = denom as int;
        assert(x / d <= x) by (nonlinear_arith)
            requires 0 <= x, d >= 1;
        assert(x / d >= 0) by (nonlinear_arith)
            requires 0 <= x, d >= 1;
    }
    let magnitude: i128 = count * sides * numer;
    let q: i128 = magnitude / denom;
    let signed: i128 = if roll_regex.multiplier.negative { -q } else { q };
    proof {
        let s = roll_regex.multiplier.spec_signum();
        let x: int = count * sides * numer;
        assert(s * count * sides * numer == s * x) by (nonlinear_arith)
            requires x == count * sides * numer;
        assert(magnitude == x);
        assert(q == x / (denom as int));
        assert(crate::roller::success_level::spec_div_trunc(s * x, denom as int) == signed);
        assert(x <= n * numer) by (nonlinear_arith) requires x == count * sides * numer, n == count * sides;
        assert(n == spec_dice_rolled(roll_regex.dice_count as int) * roll_regex.dice_sides);
    }
    let max: i32 = (signed + roll_regex.modifier as i128) as i32;
    RollRegex::new(0, 0, Multiplier { negative: false, numer: 0, denom: 1 }, max)
}

/// The roll of no dice that a term's highest total makes.
pub open spec fn spec_max_view(t: TermValue) -> RollResultView {
    let m = spec_term_max(t.dice_count as int, t.dice_sides as int, t.multiplier, t.modifier as int);
    RollResultView {
        query: spec_signed_str(m),
        result: m as i32,
        rolls: Seq::<i32>::empty(),
        modifier: m as i32,
        roll_msg: spec_roll_msg(Seq::<i32>::empty(), m),
    }
}

/// The highest total that a query can roll.
pub fn get_roll_max(input: &str) -> (r: Result<RollResult, RollError>)
    requires
        spec_query_rollable(input@),
    ensures
        r is Ok <==> spec_roll_parse(input@) is Some,
        r matches Ok(res) ==> res@ == spec_merged(spec_roll_parse(input@)->0.map_values(|t: TermValue| spec_max_view(t))),
        r matches Ok(res) ==> -spec_query_bound(input@) <= res@.result <= spec_query_bound(input@),
{
    let regexes = match roll_parse(input) {
        Ok(v) => v,
        Err(e) => { return Err(e); },
    };
    let ghost terms = spec_roll_parse(input@)->0;
    let mut results: Vec<RollResult> = Vec::new();
    let mut i: usize = 0;
    proof {
        assert(terms.take(0) =~= Seq::<TermValue>::empty());
        assert(spec_regex_views(regexes@).len() == regexes@.len());
        assert(spec_result_views(results@) =~= terms.take(0).map_values(|t: TermValue| spec_max_view(t)));
    }
    while i < regexes.len()
        invariant
            spec_regex_views(regexes@) == terms.map_values(|t: TermValue| spec_term_regex(t)),
            spec_terms_rollable(terms),
            i <= regexes@.len(),
            regexes@.len() == terms.len(),
            spec_result_views(results@) == terms.take(i as int).map_values(|t: TermValue| spec_max_view(t)),
            spec_results_abs_sum(spec_result_views(results@)) <= spec_bounds_sum(terms.take(i as int)),
        decreases regexes@.len() - i,
    {
        let rr = &regexes[i];
        let ghost t = terms[i as int];
        proof {
            assert(spec_regex_views(regexes@)[i as int] == rr@);
            assert(rr@ == spec_term_regex(t));
        }
        let m = rollregex_to_max(rr);
        let res = RollResult::new_modifier(m.modifier);
        let ghost before = spec_result_views(results@);
        results.push(res);
        proof {
            assert(spec_result_views(results@) =~= before.push(res@));
            assert(terms.take(i as int + 1).drop_last() =~= terms.take(i as int));
            assert(terms.take(i as int + 1).last() == t);
            assert(res@ == spec_max_view(t));
            assert(spec_result_views(results@) =~= terms.take(i as int + 1).map_values(|t: TermValue| spec_max_view(t)));
            assert(spec_result_views(results@).drop_last() =~= before);
            lemma_bounds_prefix(terms, i as int + 1);
        }
        i += 1;
    }
    proof {
        assert(terms.take(terms.len() as int) =~= terms);
        lemma_sum_bounded(spec_result_views(results@));
    }
    merge_roll_results(results.as_slice())
}

/// Whether a query can be rolled without overflow or an empty die.
pub fn query_rollable(query: &str) -> (r: bool)
    ensures
        r == spec_query_rollable(query@),
{
    query_bound(query).is_some()
}

/// The bound on the size of a query's total, where the query can be rolled.
pub fn query_bound(query: &str) -> (r: Option<i32>)
    ensures
        r is Some <==> spec_query_rollable(query@),
        r matches Some(b) ==> b == spec_query_bound(query@),
{
    let regexes = match roll_parse(query) {
        Ok(v) => v,
        Err(_) => { return Some(0); },
    };
    let ghost terms = spec_roll_parse(query@)->0;
    let mut total: i128 = 0;
    let mut i: usize = 0;
    proof {
        assert(terms.take(0) =~= Seq::<TermValue>::empty());
        assert(spec_regex_views(regexes@).len() == regexes@.len());
    }
    while i < regexes.len()
        invariant
            spec_regex_views(regexes@) == terms.map_values(|t: TermValue| spec_term_regex(t)),
            terms == spec_roll_parse(query@)->0,
            spec_roll_parse(query@) is Some,
            i <= regexes@.len(),
            regexes@.len() == terms.len(),
            spec_each_term_rollable(terms.take(i as int)),
            total == spec_bounds_sum(terms.take(i as int)),
            0 <= total <= i32::MAX,
        decreases regexes@.len() - i,
    {
        let rr = &regexes[i];
        let ghost t = terms[i as int];
        proof {
            assert(spec_regex_views(regexes@)[i as int] == rr@);
            assert(rr@ == spec_term_regex(t));
            assert(terms.take(i as int + 1).drop_last() =~= terms.take(i as int));
            assert(terms.take(i as int + 1).last() == t);
        }
        if rr.multiplier.denom == 0 || rr.dice_count < 0 || rr.dice_sides < 0 || (rr.dice_count > 0 && rr.dice_sides < 1) {
            proof {
                assert(!spec_terms_rollable(terms)) by {
                    assert(terms[i as int] == t);
                }
            }
            return None;
        }
        let count = rr.dice_count as i128;
        let sides = rr.dice_sides as i128;
        let numer = rr.multiplier.numer as i128;
        let denom = rr.multiplier.denom as i128;
        proof {
            assert(0 <= count * sides <= 0x4000_0000_0000_0000) by (nonlinear_arith)
                requires 0 <= count <= i32::MAX, 0 <= sides <= i32::MAX;
            assert(0 <= count * sides * numer <= 0x4000_0000_0000_0000 * 0x1_0000_0000) by (nonlinear_arith)
                requires 0 <= count * sides <= 0x4000_0000_0000_0000, 0 <= numer <= 0xFFFF_FFFF;
            let x: int = count * sides * numer;
            assert(x / (denom as int) <= x) by (nonlinear_arith)
                requires 0 <= x, denom >= 1;
            assert(x / (denom as int) >= 0) by (nonlinear_arith)
                requires 0 <= x, denom >= 1;
        }
        let abs_mod: i128 = if rr.modifier >= 0 { rr.modifier as i128 } else { -(rr.modifier as i128) };
        let bound: i128 = count * sides * numer / denom + 1 + abs_mod;
        assert(bound == spec_value_bound(t));
        if bound > 0x7FFF_FFFF || total + bound > 0x7FFF_FFFF {
            proof {
                lemma_value_bound_positive_or_not(t);
                if spec_each_term_rollable(terms) {
                    lemma_bounds_prefix(terms, i as int + 1);
                }
                assert(!spec_terms_rollable(terms));
            }
            return None;
        }
        total = total + bound;
        proof {
            assert forall|k: int| 0 <= k < i + 1 implies {
                let u = #[trigger] terms.take(i as int + 1)[k];
                &&& spec_term_rollable(u.dice_count as int, u.dice_sides as int, u.multiplier, u.modifier as int)
                &&& u.dice_count >= 0
                &&& u.dice_sides >= 0
            } by {
                if k < i {
                    assert(terms.take(i as int + 1)[k] == terms.take(i as int)[k]);
                }
            }
        }
        i += 1;
    }
    proof {
        assert(terms.take(terms.len() as int) =~= terms);
    }
    Some(total as i32)
}

proof fn lemma_value_bound_positive_or_not(t: TermValue)
    ensures
        t.dice_count >= 0 && t.dice_sides >= 0 && t.multiplier.denom > 0 ==> spec_value_bound(t) >= 1,
{
    if t.dice_count >= 0 && t.dice_sides >= 0 && t.multiplier.denom > 0 {
        let n = spec_dice_rolled(t.dice_count as int);
        assert(n * t.dice_sides * t.multiplier.numer >= 0) by (nonlinear_arith)
            requires n >= 0, t.dice_sides >= 0, t.multiplier.numer >= 0;
        assert(n * t.dice_sides * t.multiplier.numer / (t.multiplier.denom as int) >= 0) by (nonlinear_arith)
            requires n * t.dice_sides * t.multiplier.numer >= 0, t.multiplier.denom > 0;
    }
}

} // verus!
