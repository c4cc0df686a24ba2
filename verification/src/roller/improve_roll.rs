//! Improvement tests of skills.
use crate::roller::dice_rng::{DiceRng, RealRng};
use crate::roller::success_level::SuccessLevel;
use vstd::prelude::*;

verus! {

/// The outcome of an improvement test.
#[derive(Debug, Clone, Copy, PartialEq, Eq, Structural)]
pub struct ImproveResult {
    pub result: i32,
    pub success_level: SuccessLevel,
    pub threshold: i32,
}

/// A skill improves when the roll exceeds it, or exceeds 95.
pub open spec fn spec_improves(threshold: int, result: int) -> bool {
    result > threshold || result > 95
}

impl ImproveResult {
    pub fn new(threshold: i32, result: i32) -> (r: Self)
        ensures
            r.threshold == threshold,
            r.result == result,
            r.success_level == (if spec_improves(threshold as int, result as int) {
                SuccessLevel::Success
            } else {
                SuccessLevel::Failure
            }),
    {
        let success_level = if result > threshold || result > 95 {
            SuccessLevel::Success
        } else {
            SuccessLevel::Failure
        };
        ImproveResult { threshold, result, success_level }
    }
}

/// Rolls an improvement test with a d100 from `rng`.
pub fn improve_skill_with<D: DiceRng>(rng: &mut D, threshold: i32) -> (r: ImproveResult)
    ensures
        1 <= r.result <= 100,
        r == ImproveResult::spec_new(threshold, r.result),
        final(rng).draws() == old(rng).draws().push((1i32, 100i32, r.result)),
{
    let roll = rng.random_range(1..=100);
    ImproveResult::new(threshold, roll)
}

/// Rolls an improvement test with a d100 from the thread's generator.
pub fn improve_skill(threshold: i32) -> (r: ImproveResult)
    ensures
        1 <= r.result <= 100,
        r == ImproveResult::spec_new(threshold, r.result),
{
    let mut rng = RealRng::new();
    improve_skill_with(&mut rng, threshold)
}

impl ImproveResult {
    /// The outcome of an improvement test with the given roll.
    pub open spec fn spec_new(threshold: i32, result: i32) -> ImproveResult {
        ImproveResult {
            threshold,
            result,
            success_level: if spec_improves(threshold as int, result as int) {
                SuccessLevel::Success
            } else {
                SuccessLevel::Failure
            },
        }
    }
}

} // verus!
