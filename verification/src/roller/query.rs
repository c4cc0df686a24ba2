//! The grammar of a roll term, read at a position of a token:
//! `[+-]?[0-9]*[dk][0-9]+` (dice), then `[x*]([0-9]*[.])?[0-9]+`
//! (multiplier), then `[+-]?[0-9]+` (modifier), each part optional and
//! each taken as long as it can be.
use crate::roller::roll::{spec_term_query, Multiplier, RollRegex, RollRegexView};
use vstd::prelude::*;

verus! {

pub open spec fn spec_is_digit(c: char) -> bool {
    '0' <= c && c <= '9'
}

pub open spec fn spec_is_sign(c: char) -> bool {
    c == '+' || c == '-'
}

pub open spec fn spec_is_die(c: char) -> bool {
    c == 'd' || c == 'k'
}

pub open spec fn spec_is_times(c: char) -> bool {
    c == 'x' || c == '*'
}

/// The end of the run of digits that starts at `p`.
pub open spec fn spec_digits_end(t: Seq<char>, p: int) -> int
    decreases t.len() - p,
{
    if 0 <= p < t.len() && spec_is_digit(t[p]) {
        spec_digits_end(t, p + 1)
    } else {
        p
    }
}

/// The value of the digits `t[a..b]`.
pub open spec fn spec_digits_value(t: Seq<char>, a: int, b: int) -> int
    decreases b - a,
{
    if b <= a {
        0
    } else {
        spec_digits_value(t, a, b - 1) * 10 + (t[b - 1] as int - '0' as int)
    }
}

pub open spec fn spec_pow10(n: nat) -> int
    decreases n,
{
    if n == 0 { 1 } else { 10 * spec_pow10((n - 1) as nat) }
}

// ---- dice: [+-]?[0-9]*[dk][0-9]+

pub open spec fn spec_dice_digits_start(t: Seq<char>, p: int) -> int {
    if 0 <= p < t.len() && spec_is_sign(t[p]) { p + 1 } else { p }
}

pub open spec fn spec_dice_marker(t: Seq<char>, p: int) -> int {
    spec_digits_end(t, spec_dice_digits_start(t, p))
}

pub open spec fn spec_dice_end(t: Seq<char>, p: int) -> int {
    spec_digits_end(t, spec_dice_marker(t, p) + 1)
}

pub open spec fn spec_has_dice(t: Seq<char>, p: int) -> bool {
    let m = spec_dice_marker(t, p);
    &&& m < t.len()
    &&& spec_is_die(t[m])
    &&& spec_dice_end(t, p) > m + 1
}

// ---- multiplier: [x*]([0-9]*[.])?[0-9]+

pub open spec fn spec_mult_int_end(t: Seq<char>, q: int) -> int {
    spec_digits_end(t, q + 1)
}

pub open spec fn spec_mult_has_frac(t: Seq<char>, q: int) -> bool {
    let e = spec_mult_int_end(t, q);
    &&& e < t.len()
    &&& t[e] == '.'
    &&& spec_digits_end(t, e + 1) > e + 1
}

pub open spec fn spec_has_mult(t: Seq<char>, q: int) -> bool {
    &&& 0 <= q < t.len()
    &&& spec_is_times(t[q])
    &&& (spec_mult_has_frac(t, q) || spec_mult_int_end(t, q) > q + 1)
}

pub open spec fn spec_mult_end(t: Seq<char>, q: int) -> int {
    if spec_mult_has_frac(t, q) {
        spec_digits_end(t, spec_mult_int_end(t, q) + 1)
    } else {
        spec_mult_int_end(t, q)
    }
}

// ---- modifier: [+-]?[0-9]+

pub open spec fn spec_mod_digits_start(t: Seq<char>, q: int) -> int {
    if 0 <= q < t.len() && spec_is_sign(t[q]) { q + 1 } else { q }
}

pub open spec fn spec_has_mod(t: Seq<char>, q: int) -> bool {
    spec_digits_end(t, spec_mod_digits_start(t, q)) > spec_mod_digits_start(t, q)
}

pub open spec fn spec_mod_end(t: Seq<char>, q: int) -> int {
    spec_digits_end(t, spec_mod_digits_start(t, q))
}

// ---- the whole term

pub open spec fn spec_after_dice(t: Seq<char>, p: int) -> int {
    if spec_has_dice(t, p) { spec_dice_end(t, p) } else { p }
}

pub open spec fn spec_after_mult(t: Seq<char>, p: int) -> int {
    let q = spec_after_dice(t, p);
    if spec_has_mult(t, q) { spec_mult_end(t, q) } else { q }
}

/// Where the term read at `p` ends; `p` itself when nothing matches there.
pub open spec fn spec_term_end(t: Seq<char>, p: int) -> int {
    let q = spec_after_mult(t, p);
    if spec_has_mod(t, q) { spec_mod_end(t, q) } else { q }
}

/// The term's dice count, sides, multiplier and modifier as mathematical
/// integers, before they are fitted into their types.
pub open spec fn spec_term_negative(t: Seq<char>, p: int) -> bool {
    spec_has_dice(t, p) && 0 <= p < t.len() && t[p] == '-'
}

pub open spec fn spec_term_sides(t: Seq<char>, p: int) -> int {
    if spec_has_dice(t, p) {
        spec_digits_value(t, spec_dice_marker(t, p) + 1, spec_dice_end(t, p))
    } else {
        0
    }
}

pub open spec fn spec_term_count(t: Seq<char>, p: int) -> int {
    if spec_has_dice(t, p) && spec_dice_marker(t, p) > spec_dice_digits_start(t, p) {
        spec_digits_value(t, spec_dice_digits_start(t, p), spec_dice_marker(t, p))
    } else if spec_term_sides(t, p) > 0 {
        1
    } else {
        0
    }
}

pub open spec fn spec_term_modifier(t: Seq<char>, p: int) -> int {
    let q = spec_after_mult(t, p);
    if spec_has_mod(t, q) {
        let v = spec_digits_value(t, spec_mod_digits_start(t, q), spec_mod_end(t, q));
        if 0 <= q < t.len() && t[q] == '-' { -v } else { v }
    } else {
        0
    }
}

/// The number of decimals of the multiplier.
pub open spec fn spec_mult_decimals(t: Seq<char>, q: int) -> int {
    if spec_mult_has_frac(t, q) {
        spec_digits_end(t, spec_mult_int_end(t, q) + 1) - (spec_mult_int_end(t, q) + 1)
    } else {
        0
    }
}

/// The multiplier's digits read as one integer: its value times `10^decimals`.
pub open spec fn spec_mult_numer(t: Seq<char>, q: int) -> int {
    let e = spec_mult_int_end(t, q);
    if spec_mult_has_frac(t, q) {
        spec_digits_value(t, q + 1, e) * spec_pow10(spec_mult_decimals(t, q) as nat)
            + spec_digits_value(t, e + 1, spec_digits_end(t, e + 1))
    } else {
        spec_digits_value(t, q + 1, e)
    }
}

/// The multiplier of the term: one without a multiplier; its sign is that
/// of the dice.
pub open spec fn spec_term_multiplier(t: Seq<char>, p: int) -> Option<Multiplier> {
    let q = spec_after_dice(t, p);
    let negative = spec_term_negative(t, p);
    if spec_has_mult(t, q) {
        let numer = spec_mult_numer(t, q);
        let denom = spec_pow10(spec_mult_decimals(t, q) as nat);
        if numer <= u32::MAX && denom <= u32::MAX {
            Some(Multiplier { negative, numer: numer as u32, denom: denom as u32 })
        } else {
            None
        }
    } else {
        Some(Multiplier { negative, numer: 1, denom: 1 })
    }
}

/// A term as the four values that make it.
pub struct TermValue {
    pub dice_count: i32,
    pub dice_sides: i32,
    pub multiplier: Multiplier,
    pub modifier: i32,
}

/// A term's values, where each fits its type; a term without dice and
/// without modifier is skipped, whatever its multiplier.
pub open spec fn spec_term_fits(t: Seq<char>, p: int) -> bool {
    let count = spec_term_count(t, p);
    let modifier = spec_term_modifier(t, p);
    &&& spec_term_sides(t, p) <= i32::MAX
    &&& count <= i32::MAX
    &&& i32::MIN <= modifier <= i32::MAX
    &&& (count == 0 && modifier == 0) || spec_term_multiplier(t, p) is Some
}

/// The terms of `t` read from `p` on, `None` where a number does not fit.
pub open spec fn spec_scan(t: Seq<char>, p: int) -> Option<Seq<TermValue>>
    decreases t.len() - p,
{
    if p >= t.len() || p < 0 {
        Some(Seq::<TermValue>::empty())
    } else {
        let e = spec_term_end(t, p);
        proof {
            lemma_term_end_bounds(t, p);
        }
        if e <= p {
            spec_scan(t, p + 1)
        } else if !spec_term_fits(t, p) {
            None
        } else {
            let count = spec_term_count(t, p);
            let modifier = spec_term_modifier(t, p);
            if count == 0 && modifier == 0 {
                spec_scan(t, e)
            } else {
                match spec_scan(t, e) {
                    None => None,
                    Some(rest) => Some(seq![TermValue {
                        dice_count: count as i32,
                        dice_sides: spec_term_sides(t, p) as i32,
                        multiplier: spec_term_multiplier(t, p)->0,
                        modifier: modifier as i32,
                    }] + rest),
                }
            }
        }
    }
}

pub proof fn lemma_digits_end_bounds(t: Seq<char>, p: int)
    requires
        0 <= p,
    ensures
        p <= spec_digits_end(t, p),
        p <= t.len() ==> spec_digits_end(t, p) <= t.len(),
        forall|i: int| p <= i < spec_digits_end(t, p) ==> spec_is_digit(#[trigger] t[i]),
        spec_digits_end(t, p) < t.len() ==> !spec_is_digit(t[spec_digits_end(t, p)]),
    decreases t.len() - p,
{
    if 0 <= p < t.len() && spec_is_digit(t[p]) {
        lemma_digits_end_bounds(t, p + 1);
    }
}

pub proof fn lemma_term_end_bounds(t: Seq<char>, p: int)
    requires
        0 <= p <= t.len(),
    ensures
        p <= spec_after_dice(t, p) <= spec_after_mult(t, p) <= spec_term_end(t, p) <= t.len(),
{
    let s = spec_dice_digits_start(t, p);
    lemma_digits_end_bounds(t, s);
    let m = spec_dice_marker(t, p);
    if m < t.len() {
        lemma_digits_end_bounds(t, m + 1);
    }
    let q = spec_after_dice(t, p);
    if 0 <= q < t.len() {
        lemma_digits_end_bounds(t, q + 1);
        let e = spec_mult_int_end(t, q);
        if e < t.len() {
            lemma_digits_end_bounds(t, e + 1);
        }
    }
    let q2 = spec_after_mult(t, p);
    lemma_digits_end_bounds(t, spec_mod_digits_start(t, q2));
}

pub proof fn lemma_digits_value_nonneg(t: Seq<char>, a: int, b: int)
    requires
        forall|i: int| a <= i < b ==> spec_is_digit(#[trigger] t[i]),
    ensures
        spec_digits_value(t, a, b) >= 0,
    decreases b - a,
{
    if b > a {
        lemma_digits_value_nonneg(t, a, b - 1);
    }
}

/// Digit values capped at `2^32`: beyond it no number of this grammar fits.
pub open spec fn spec_capped(v: int) -> int {
    if v < 0x1_0000_0000 { v } else { 0x1_0000_0000 }
}

/// The end of the run of digits of `t` that starts at `p`.
pub fn digits_end(t: &str, p: usize) -> (r: usize)
    requires
        p <= t@.len(),
    ensures
        r == spec_digits_end(t@, p as int),
        p <= r <= t@.len(),
{
    let n = t.unicode_len();
    let mut i = p;
    proof { lemma_digits_end_bounds(t@, p as int); }
    while i < n && is_digit(t.get_char(i))
        invariant
            n == t@.len(),
            p <= i <= n,
            spec_digits_end(t@, p as int) == spec_digits_end(t@, i as int),
        decreases n - i,
    {
        i += 1;
    }
    i
}

pub fn is_digit(c: char) -> (r: bool)
    ensures
        r == spec_is_digit(c),
{
    '0' <= c && c <= '9'
}

/// The value of the digits `t[a..b]`, capped at `2^32`.
pub fn digits_value_capped(t: &str, a: usize, b: usize) -> (r: u64)
    requires
        a <= b <= t@.len(),
        forall|i: int| a <= i < b ==> spec_is_digit(#[trigger] t@[i]),
    ensures
        r == spec_capped(spec_digits_value(t@, a as int, b as int)),
{
    let mut acc: u64 = 0;
    let mut i = a;
    while i < b
        invariant
            a <= i <= b <= t@.len(),
            forall|k: int| a <= k < b ==> spec_is_digit(#[trigger] t@[k]),
            acc == spec_capped(spec_digits_value(t@, a as int, i as int)),
        decreases b - i,
    {
        let c = t.get_char(i);
        assert(spec_is_digit(t@[i as int]));
        let d: u64 = (c as u32 - '0' as u32) as u64;
        proof {
            lemma_digits_value_nonneg(t@, a as int, i as int);
        }
        if acc >= 0x1_0000_0000 {
            acc = 0x1_0000_0000;
        } else {
            let v = acc * 10 + d;
            acc = if v >= 0x1_0000_0000 { 0x1_0000_0000 } else { v };
        }
        i += 1;
    }
    acc
}

pub fn is_sign(c: char) -> (r: bool)
    ensures
        r == spec_is_sign(c),
{
    c == '+' || c == '-'
}

pub fn is_die(c: char) -> (r: bool)
    ensures
        r == spec_is_die(c),
{
    c == 'd' || c == 'k'
}

pub fn is_times(c: char) -> (r: bool)
    ensures
        r == spec_is_times(c),
{
    c == 'x' || c == '*'
}

proof fn lemma_capped_step(x: int, d: int)
    requires
        x >= 0,
        0 <= d <= 9,
    ensures
        spec_capped(spec_capped(x) * 10 + d) == spec_capped(x * 10 + d),
{
}

proof fn lemma_pow10_positive(n: nat)
    ensures
        spec_pow10(n) >= 1,
        n >= 10 ==> spec_pow10(n) >= 10_000_000_000,
    decreases n,
{
    if n > 0 {
        lemma_pow10_positive((n - 1) as nat);
        if n >= 10 {
            if n == 10 {
                reveal_with_fuel(spec_pow10, 11);
            }
        }
    }
}

/// `10^n` where it fits a `u32`.
fn pow10_u32(n: usize) -> (r: Option<u32>)
    ensures
        r is Some <==> spec_pow10(n as nat) <= u32::MAX,
        r matches Some(v) ==> v == spec_pow10(n as nat),
{
    proof { lemma_pow10_positive(n as nat); }
    if n > 9 {
        return None;
    }
    let mut v: u32 = 1;
    let mut i: usize = 0;
    while i < n
        invariant
            i <= n <= 9,
            v == spec_pow10(i as nat),
            v <= 1_000_000_000,
        decreases n - i,
    {
        proof {
            if i <= 8 {
                reveal_with_fuel(spec_pow10, 10);
                assert(spec_pow10(i as nat) <= 100_000_000) by {
                    lemma_pow10_le(i as nat, 8);
                }
            }
        }
        v = v * 10;
        i += 1;
    }
    Some(v)
}

proof fn lemma_pow10_le(i: nat, j: nat)
    requires
        i <= j <= 9,
    ensures
        spec_pow10(i) <= spec_pow10(j),
        j == 8 ==> spec_pow10(j) == 100_000_000,
        j == 9 ==> spec_pow10(j) == 1_000_000_000,
    decreases j - i,
{
    reveal_with_fuel(spec_pow10, 10);
    if i < j {
        lemma_pow10_le(i, (j - 1) as nat);
        lemma_pow10_positive((j - 1) as nat);
    }
}

/// The multiplier's digits as one integer, capped at `2^32`.
fn mult_numer_capped(t: &str, q: usize) -> (r: u64)
    requires
        spec_has_mult(t@, q as int),
    ensures
        r == spec_capped(spec_mult_numer(t@, q as int)),
{
    proof {
        lemma_digits_end_bounds(t@, q as int + 1);
    }
    let n = t.unicode_len();
    let e = digits_end(t, q + 1);
    let mut acc = digits_value_capped(t, q + 1, e);
    proof { lemma_digits_value_nonneg(t@, q as int + 1, e as int); }
    if e < n && t.get_char(e) == '.' {
        proof { lemma_digits_end_bounds(t@, e as int + 1); }
        let f = digits_end(t, e + 1);
        if f > e + 1 {
            let ghost iv = spec_digits_value(t@, q as int + 1, e as int);
            let mut j: usize = e + 1;
            assert(spec_pow10(0) == 1);
            while j < f
                invariant
                    e + 1 <= j <= f <= t@.len(),
                    iv >= 0,
                    forall|k: int| e + 1 <= k < f ==> spec_is_digit(#[trigger] t@[k]),
                    acc == spec_capped(iv * spec_pow10((j - (e + 1)) as nat) + spec_digits_value(t@, e as int + 1, j as int)),
                decreases f - j,
            {
                let c = t.get_char(j);
                assert(spec_is_digit(t@[j as int]));
                let d: u64 = (c as u32 - '0' as u32) as u64;
                proof {
                    let k = (j - (e + 1)) as nat;
                    lemma_pow10_positive(k);
                    lemma_digits_value_nonneg(t@, e as int + 1, j as int);
                    let x = iv * spec_pow10(k) + spec_digits_value(t@, e as int + 1, j as int);
                    assert(iv * spec_pow10(k) >= 0) by (nonlinear_arith)
                        requires iv >= 0, spec_pow10(k) >= 1;
                    lemma_capped_step(x, d as int);
                    assert(spec_pow10((k + 1) as nat) == 10 * spec_pow10(k));
                    assert(x * 10 + d == iv * spec_pow10((k + 1) as nat) + spec_digits_value(t@, e as int + 1, j as int + 1)) by (nonlinear_arith)
                        requires
                            x == iv * spec_pow10(k) + spec_digits_value(t@, e as int + 1, j as int),
                            spec_pow10((k + 1) as nat) == 10 * spec_pow10(k),
                            spec_digits_value(t@, e as int + 1, j as int + 1) == spec_digits_value(t@, e as int + 1, j as int) * 10 + d,
                    ;
                }
                if acc >= 0x1_0000_0000 {
                    acc = 0x1_0000_0000;
                } else {
                    let v = acc * 10 + d;
                    acc = if v >= 0x1_0000_0000 { 0x1_0000_0000 } else { v };
                }
                j += 1;
            }
            return acc;
        }
    }
    acc
}

/// Reads the multiplier at `q`, one where there is none; `None` where its
/// digits or decimals do not fit a `u32`.
fn read_multiplier(t: &str, q: usize, negative: bool) -> (r: Option<Multiplier>)
    requires
        q <= t@.len(),
    ensures
        r == spec_term_multiplier_at(t@, q as int, negative),
{
    let n = t.unicode_len();
    if q < n && is_times(t.get_char(q)) {
        proof {
            lemma_digits_end_bounds(t@, q as int + 1);
        }
        let e = digits_end(t, q + 1);
        let mut has_frac = false;
        let mut decimals: usize = 0;
        if e < n && t.get_char(e) == '.' {
            proof { lemma_digits_end_bounds(t@, e as int + 1); }
            let f = digits_end(t, e + 1);
            if f > e + 1 {
                has_frac = true;
                decimals = f - (e + 1);
            }
        }
        if has_frac || e > q + 1 {
            let numer = mult_numer_capped(t, q);
            match pow10_u32(decimals) {
                Some(denom) => {
                    if numer <= 0xFFFF_FFFF {
                        Some(Multiplier { negative, numer: numer as u32, denom })
                    } else {
                        None
                    }
                },
                None => None,
            }
        } else {
            Some(Multiplier { negative, numer: 1, denom: 1 })
        }
    } else {
        Some(Multiplier { negative, numer: 1, denom: 1 })
    }
}

/// `spec_term_multiplier` with the position after the dice and the sign.
pub open spec fn spec_term_multiplier_at(t: Seq<char>, q: int, negative: bool) -> Option<Multiplier> {
    if spec_has_mult(t, q) {
        let numer = spec_mult_numer(t, q);
        let denom = spec_pow10(spec_mult_decimals(t, q) as nat);
        if numer <= u32::MAX && denom <= u32::MAX {
            Some(Multiplier { negative, numer: numer as u32, denom: denom as u32 })
        } else {
            None
        }
    } else {
        Some(Multiplier { negative, numer: 1, denom: 1 })
    }
}

/// The regex view of a term's values.
pub open spec fn spec_term_regex(v: TermValue) -> RollRegexView {
    RollRegexView {
        query: spec_term_query(v.dice_count as int, v.dice_sides as int, v.multiplier, v.modifier as int),
        dice_count: v.dice_count,
        dice_sides: v.dice_sides,
        multiplier: v.multiplier,
        modifier: v.modifier,
    }
}

pub open spec fn spec_prepend(acc: Seq<TermValue>, o: Option<Seq<TermValue>>) -> Option<Seq<TermValue>> {
    match o {
        Some(r) => Some(acc + r),
        None => None,
    }
}

/// The views of a list of terms.
pub open spec fn spec_regex_views(v: Seq<RollRegex>) -> Seq<RollRegexView> {
    v.map_values(|r: RollRegex| r@)
}

/// Reads a number of `t[a..b]` that must fit an `i32`, negated when `negative`.
fn read_i32(t: &str, a: usize, b: usize, negative: bool) -> (r: Option<i32>)
    requires
        a <= b <= t@.len(),
        forall|i: int| a <= i < b ==> spec_is_digit(#[trigger] t@[i]),
    ensures
        ({
            let v = if negative { -spec_digits_value(t@, a as int, b as int) } else { spec_digits_value(t@, a as int, b as int) };
            &&& r is Some <==> i32::MIN <= v <= i32::MAX
            &&& r matches Some(x) ==> x == v
        }),
        spec_digits_value(t@, a as int, b as int) >= 0,
{
    let v = digits_value_capped(t, a, b);
    proof { lemma_digits_value_nonneg(t@, a as int, b as int); }
    if negative {
        if v <= 0x8000_0000 {
            Some((-(v as i64)) as i32)
        } else {
            None
        }
    } else {
        if v <= 0x7FFF_FFFF {
            Some(v as i32)
        } else {
            None
        }
    }
}

/// Where the parts of the term read at a position start and end.
pub struct TermSpans {
    pub digits_start: usize,
    pub marker: usize,
    pub has_dice: bool,
    pub dice_end: usize,
    pub after_dice: usize,
    pub after_mult: usize,
    pub mod_start: usize,
    pub mod_end: usize,
    pub has_mod: bool,
    pub end: usize,
}

impl TermSpans {
    /// The spans are those of the grammar for the term at `p`.
    pub open spec fn spec_of(self, t: Seq<char>, p: int) -> bool {
        &&& self.digits_start == spec_dice_digits_start(t, p)
        &&& self.marker == spec_dice_marker(t, p)
        &&& self.has_dice == spec_has_dice(t, p)
        &&& (self.has_dice ==> self.dice_end == spec_dice_end(t, p))
        &&& self.after_dice == spec_after_dice(t, p)
        &&& self.after_mult == spec_after_mult(t, p)
        &&& self.mod_start == spec_mod_digits_start(t, self.after_mult as int)
        &&& self.mod_end == spec_mod_end(t, self.after_mult as int)
        &&& self.has_mod == spec_has_mod(t, self.after_mult as int)
        &&& self.end == spec_term_end(t, p)
        &&& p <= self.digits_start <= self.marker <= t.len()
        &&& self.after_mult <= self.mod_start <= self.mod_end <= t.len()
        &&& p <= self.end <= t.len()
        &&& (self.has_dice ==> self.marker < self.dice_end <= t.len())
        &&& self.after_dice <= t.len()
        &&& self.after_mult <= t.len()
    }
}

/// The spans of the term read at `p`.
fn term_spans(t: &str, p: usize) -> (r: TermSpans)
    requires
        p < t@.len(),
    ensures
        r.spec_of(t@, p as int),
{
    let n = t.unicode_len();
    let ghost tv = t@;
    proof { lemma_term_end_bounds(tv, p as int); }
    let first = t.get_char(p);
    let s = if is_sign(first) { p + 1 } else { p };
    proof { lemma_digits_end_bounds(tv, s as int); }
    let m = digits_end(t, s);
    let mut has_dice = false;
    let mut dend = m;
    if m < n && is_die(t.get_char(m)) {
        proof { lemma_digits_end_bounds(tv, m as int + 1); }
        let de = digits_end(t, m + 1);
        if de > m + 1 {
            has_dice = true;
            dend = de;
        }
    }
    let q1 = if has_dice { dend } else { p };
    let mut q2 = q1;
    if q1 < n && is_times(t.get_char(q1)) {
        proof { lemma_digits_end_bounds(tv, q1 as int + 1); }
        let e = digits_end(t, q1 + 1);
        let mut frac = false;
        if e < n && t.get_char(e) == '.' {
            proof { lemma_digits_end_bounds(tv, e as int + 1); }
            let f = digits_end(t, e + 1);
            if f > e + 1 {
                frac = true;
                q2 = f;
            }
        }
        if !frac && e > q1 + 1 {
            q2 = e;
        }
    }
    let ms = if q2 < n && is_sign(t.get_char(q2)) { q2 + 1 } else { q2 };
    proof { lemma_digits_end_bounds(tv, ms as int); }
    let me = digits_end(t, ms);
    let has_mod = me > ms;
    let e = if has_mod { me } else { q2 };
    TermSpans {
        digits_start: s,
        marker: m,
        has_dice,
        dice_end: dend,
        after_dice: q1,
        after_mult: q2,
        mod_start: ms,
        mod_end: me,
        has_mod,
        end: e,
    }
}

/// What the term read at a position gives.
pub enum TermOutcome {
    /// Nothing matches there.
    Nothing,
    /// A term without dice and without modifier.
    Skip,
    /// A number of the term does not fit its type.
    Bad,
    Term(i32, i32, Multiplier, i32),
}

/// Reads the values of the term at `p`.
fn term_outcome(t: &str, p: usize, sp: &TermSpans) -> (r: TermOutcome)
    requires
        p < t@.len(),
        sp.spec_of(t@, p as int),
    ensures
        r is Nothing <==> sp.end <= p,
        r is Bad <==> sp.end > p && !spec_term_fits(t@, p as int),
        r is Skip <==> sp.end > p && spec_term_fits(t@, p as int) && spec_term_count(t@, p as int) == 0
            && spec_term_modifier(t@, p as int) == 0,
        r matches TermOutcome::Term(count, sides, mult, modifier) ==> sp.end > p && spec_term_fits(t@, p as int)
            && count == spec_term_count(t@, p as int) && sides == spec_term_sides(t@, p as int)
            && Some(mult) == spec_term_multiplier(t@, p as int) && modifier == spec_term_modifier(t@, p as int)
            && !(count == 0 && modifier == 0),
{
    let ghost tv = t@;
    if sp.end <= p {
        return TermOutcome::Nothing;
    }
    let mut sides: i32 = 0;
    if sp.has_dice {
        proof { lemma_digits_end_bounds(tv, sp.marker as int + 1); }
        match read_i32(t, sp.marker + 1, sp.dice_end, false) {
            Some(v) => { sides = v; },
            None => {
                assert(spec_term_sides(tv, p as int) > i32::MAX);
                return TermOutcome::Bad;
            },
        }
    }
    let mut count: i32 = if sides > 0 { 1 } else { 0 };
    if sp.has_dice && sp.marker > sp.digits_start {
        proof { lemma_digits_end_bounds(tv, sp.digits_start as int); }
        match read_i32(t, sp.digits_start, sp.marker, false) {
            Some(v) => { count = v; },
            None => {
                assert(spec_term_count(tv, p as int) > i32::MAX);
                return TermOutcome::Bad;
            },
        }
    }
    let mut modifier: i32 = 0;
    if sp.has_mod {
        let n = t.unicode_len();
        let neg = sp.after_mult < n && t.get_char(sp.after_mult) == '-';
        proof { lemma_digits_end_bounds(tv, sp.mod_start as int); }
        match read_i32(t, sp.mod_start, sp.mod_end, neg) {
            Some(v) => { modifier = v; },
            None => {
                assert(!(i32::MIN <= spec_term_modifier(tv, p as int) <= i32::MAX));
                return TermOutcome::Bad;
            },
        }
    }
    if count == 0 && modifier == 0 {
        return TermOutcome::Skip;
    }
    let negative = sp.has_dice && t.get_char(p) == '-';
    match read_multiplier(t, sp.after_dice, negative) {
        Some(mult) => TermOutcome::Term(count, sides, mult, modifier),
        None => TermOutcome::Bad,
    }
}

/// Reads the terms of one token, appending them to `out`; `false` where a
/// number does not fit, with `out` then holding what was read before.
pub fn scan_token(t: &str, out: &mut Vec<RollRegex>) -> (r: bool)
    ensures
        r == spec_scan(t@, 0) is Some,
        r ==> spec_regex_views(final(out)@) == spec_regex_views(old(out)@)
            + spec_scan(t@, 0)->0.map_values(|v: TermValue| spec_term_regex(v)),
{
    let n = t.unicode_len();
    let mut p: usize = 0;
    let ghost mut acc: Seq<TermValue> = Seq::empty();
    let ghost start = spec_regex_views(out@);
    assert(spec_scan(t@, 0) =~= spec_prepend(acc, spec_scan(t@, 0))) by {
        match spec_scan(t@, 0) {
            Some(r) => { assert(acc + r =~= r); },
            None => {},
        }
    }
    assert(acc.map_values(|v: TermValue| spec_term_regex(v)) =~= Seq::<RollRegexView>::empty());
    assert(spec_regex_views(out@) =~= start + acc.map_values(|v: TermValue| spec_term_regex(v)));
    while p < n
        invariant
            n == t@.len(),
            p <= n,
            spec_scan(t@, 0) == spec_prepend(acc, spec_scan(t@, p as int)),
            spec_regex_views(out@) == start + acc.map_values(|v: TermValue| spec_term_regex(v)),
        decreases n - p,
    {
        let ghost tv = t@;
        let sp = term_spans(t, p);
        let e = sp.end;
        match term_outcome(t, p, &sp) {
            TermOutcome::Nothing => {
                assert(spec_scan(tv, p as int) == spec_scan(tv, p as int + 1));
                p += 1;
            },
            TermOutcome::Bad => {
                assert(spec_scan(tv, p as int) is None);
                return false;
            },
            TermOutcome::Skip => {
                assert(spec_scan(tv, p as int) == spec_scan(tv, e as int));
                p = e;
            },
            TermOutcome::Term(count, sides, mult, modifier) => {
                let ghost v = TermValue { dice_count: count, dice_sides: sides, multiplier: mult, modifier };
                let rr = RollRegex::new(count, sides, mult, modifier);
                let ghost before = out@;
                out.push(rr);
                proof {
                    assert(spec_regex_views(out@) =~= spec_regex_views(before).push(spec_term_regex(v)));
                    let na = acc.push(v);
                    assert(na.map_values(|v: TermValue| spec_term_regex(v))
                        =~= acc.map_values(|v: TermValue| spec_term_regex(v)).push(spec_term_regex(v)));
                    match spec_scan(tv, e as int) {
                        Some(rest) => {
                            assert(spec_scan(tv, p as int) == Some(seq![v] + rest));
                            assert(acc + (seq![v] + rest) =~= na + rest);
                        },
                        None => {
                            assert(spec_scan(tv, p as int) is None);
                        },
                    }
                    acc = na;
                }
                p = e;
            },
        }
    }
    proof {
        assert(spec_scan(t@, p as int) == Some(Seq::<TermValue>::empty()));
        assert(acc + Seq::<TermValue>::empty() =~= acc);
    }
    true
}

} // verus!
