use cthulhu_roller::roller::dice_rng::DiceRng;
use cthulhu_roller::roller::roll::{get_roll_max, roll_impl, roll_parse, Multiplier, RollRegex};
use std::ops::RangeInclusive;

struct FixedRng(i32);

impl DiceRng for FixedRng {
    fn random_range(&mut self, range: RangeInclusive<i32>) -> i32 {
        let v = self.0;
        assert!(range.contains(&v) || *range.end() < v);
        v.min(*range.end())
    }
}

fn one() -> Multiplier {
    Multiplier::new(false, 1, 1)
}

fn neg_one() -> Multiplier {
    Multiplier::new(true, 1, 1)
}

fn parse_case(query: &str, expected: Vec<RollRegex>) {
    let rr = roll_parse(query).unwrap();
    assert_eq!(rr, expected, "query {query}");
}

#[test]
fn test_roll_parse() {
    parse_case("2", vec![RollRegex::new(0, 0, one(), 2)]);
    parse_case("+2", vec![RollRegex::new(0, 0, one(), 2)]);
    parse_case("-2", vec![RollRegex::new(0, 0, one(), -2)]);
    parse_case("k10", vec![RollRegex::new(1, 10, one(), 0)]);
    parse_case("1k10", vec![RollRegex::new(1, 10, one(), 0)]);
    parse_case("k10x3", vec![RollRegex::new(1, 10, Multiplier::new(false, 3, 1), 0)]);
    parse_case("k10x0.5", vec![RollRegex::new(1, 10, Multiplier::new(false, 5, 10), 0)]);
    parse_case("k10+2", vec![RollRegex::new(1, 10, one(), 0), RollRegex::new(0, 0, one(), 2)]);
    parse_case(
        "k10x3+2",
        vec![RollRegex::new(1, 10, Multiplier::new(false, 3, 1), 0), RollRegex::new(0, 0, one(), 2)],
    );
    parse_case("k10+k10", vec![RollRegex::new(1, 10, one(), 0), RollRegex::new(1, 10, one(), 0)]);
    parse_case("k10-k10", vec![RollRegex::new(1, 10, one(), 0), RollRegex::new(1, 10, neg_one(), 0)]);
    parse_case("1k10+1k10", vec![RollRegex::new(1, 10, one(), 0), RollRegex::new(1, 10, one(), 0)]);
    parse_case("1k10-1k10", vec![RollRegex::new(1, 10, one(), 0), RollRegex::new(1, 10, neg_one(), 0)]);
    parse_case("2k10+2k10", vec![RollRegex::new(2, 10, one(), 0), RollRegex::new(2, 10, one(), 0)]);
    parse_case("2k10-2k10", vec![RollRegex::new(2, 10, one(), 0), RollRegex::new(2, 10, neg_one(), 0)]);
}

fn impl_case(query: &str, expected: i32) {
    let mut rng = FixedRng(5);
    let dr = roll_impl(&mut rng, query).unwrap();
    assert_eq!(dr.result(), expected, "query {query}");
}

#[test]
fn test_roll_impl() {
    impl_case("2", 2);
    impl_case("+2", 2);
    impl_case("-2", 0);
    impl_case("k10", 5);
    impl_case("1k10", 5);
    impl_case("k10+2", 5 + 2);
    impl_case("k10x3", 5 * 3);
    impl_case("k10x0.5", 3);
    impl_case("k10x3-2", 5 * 3 - 2);
    impl_case("k10-2", 5 - 2);
    impl_case("1k10", 5);
    impl_case("1k10+2", 5 + 2);
    impl_case("1k10x3+2", 5 * 3 + 2);
    impl_case("1k10-2", 5 - 2);
    impl_case("1k10x3-2", 5 * 3 - 2);
    impl_case("k10+k10", 5 + 5);
    impl_case("1k10+k10", 5 + 5);
    impl_case("k10+1k10", 5 + 5);
    impl_case("1k10+1k10", 5 + 5);
    impl_case("k10+2k10", 5 + 2 * 5);
    impl_case("1k10+2k10", 5 + 2 * 5);
    impl_case("k10+2+k10+2", 5 + 2 + 5 + 2);
    impl_case("k10x3+2+k10x3+2", 5 * 3 + 2 + 5 * 3 + 2);
    impl_case("k10-2+k10-2", 5 - 2 + 5 - 2);
    impl_case("k10x3-2+k10x3-2", 5 * 3 - 2 + 5 * 3 - 2);
    impl_case("k10-k10", 0);
    impl_case("k10+2-k10+2", 5 + 2 - 5 + 2);
    impl_case("k10x3+2-k10x3+2", 5 * 3 + 2 - 5 * 3 + 2);
    impl_case("k10-2-k10-2", 0);
    impl_case("k10x3-2-k10x3-2", 0);
}

fn max_case(query: &str, expected: i32) {
    let rmr = get_roll_max(query).unwrap();
    assert_eq!(rmr.result(), expected, "query {query}");
}

#[test]
fn test_roll_max_result() {
    max_case("2", 2);
    max_case("+2", 2);
    max_case("-2", 0);
    max_case("k4", 4);
    max_case("k10", 10);
    max_case("k10+k6", 16);
    max_case("k3+k4", 7);
    max_case("1k4", 4);
    max_case("1k10", 10);
    max_case("1k10+1k6", 16);
    max_case("1k3+1k4", 7);
    max_case("k10-k6", 4);
    max_case("k3-k4", 0);
    max_case("1k10-1k6", 4);
    max_case("1k3-1k4", 0);
    max_case("1k3+2", 5);
    max_case("1k3-2", 1);
}

struct RecordingRng {
    value: i32,
    asked: Vec<(i32, i32)>,
}

impl DiceRng for RecordingRng {
    fn random_range(&mut self, range: RangeInclusive<i32>) -> i32 {
        self.asked.push((*range.start(), *range.end()));
        self.value.min(*range.end())
    }
}

#[test]
fn roll_draws_once_per_die() {
    let mut rng = RecordingRng { value: 5, asked: vec![] };
    let r = roll_impl(&mut rng, "k10+2k10").unwrap();
    assert_eq!(r.result(), 15);
    assert_eq!(rng.asked, vec![(1, 10), (1, 10), (1, 10)]);
    let mut rng = RecordingRng { value: 5, asked: vec![] };
    let r = roll_impl(&mut rng, "2d6-k4+3").unwrap();
    assert_eq!(r.result(), 5 + 5 - 4 + 3);
    assert_eq!(rng.asked, vec![(1, 6), (1, 6), (1, 4)]);
    let mut rng = RecordingRng { value: 5, asked: vec![] };
    assert!(roll_impl(&mut rng, "99999999999d6").is_err());
    assert!(rng.asked.is_empty());
}
