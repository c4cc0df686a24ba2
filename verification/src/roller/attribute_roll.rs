//! Rolling the eight characteristics of a new character.
use crate::locale::{locale_tag_by_str, spec_tag_by_str, LocaleTag};
use crate::roller::dice_rng::{DiceRng, RealRng};
use crate::roller::roll::{
    roll_dice_no_query, spec_dice_view, spec_valid_dice, Multiplier, RollResult, RollResultView,
};
use vstd::prelude::*;

verus! {

/// The rolls of the characteristics, in the order STR, CON, SIZ, DEX, APP,
/// INT, POW, EDU, and whether they were rolled for a pulp hero.
#[derive(Debug)]
pub struct AttributeRollResult {
    pub roll_map: Vec<(LocaleTag, RollResult)>,
    pub is_pulp: bool,
}

/// The tags of the characteristics in the order they are rolled.
pub open spec fn spec_attribute_roll_tags() -> Seq<LocaleTag> {
    seq![
        LocaleTag::Strength,
        LocaleTag::Constitution,
        LocaleTag::Size,
        LocaleTag::Dexterity,
        LocaleTag::Appearance,
        LocaleTag::Intelligence,
        LocaleTag::Power,
        LocaleTag::Education,
    ]
}

/// How many d6 a characteristic rolls and what it adds: 3d6, or 2d6+6 for
/// size, intelligence and education; a pulp hero's core characteristic
/// rolls 1d6+13.
pub open spec fn spec_attribute_dice(tag: LocaleTag, core: Option<LocaleTag>) -> (i32, i32) {
    if core == Some(tag) {
        (1, 13)
    } else if tag == LocaleTag::Size || tag == LocaleTag::Intelligence || tag == LocaleTag::Education {
        (2, 6)
    } else {
        (3, 0)
    }
}

/// The core characteristic that a pulp hero names.
pub open spec fn spec_core_tag(pulp_core_attribute: Option<&str>) -> Option<LocaleTag> {
    match pulp_core_attribute {
        Some(n) => spec_tag_by_str(n@),
        None => None,
    }
}

/// The roll of a characteristic is one that its dice can give.
pub open spec fn spec_attribute_roll_ok(tag: LocaleTag, core: Option<LocaleTag>, r: RollResultView) -> bool {
    let (count, modifier) = spec_attribute_dice(tag, core);
    &&& spec_valid_dice(count as int, 6, Multiplier { negative: false, numer: 1, denom: 1 }, r.rolls)
    &&& r == spec_dice_view(Seq::<char>::empty(), r.rolls, Multiplier { negative: false, numer: 1, denom: 1 }, modifier)
}

/// The total of a roll, no less than zero.
pub open spec fn spec_clamped_result(r: RollResultView) -> int {
    if r.result > 0 { r.result as int } else { 0 }
}

/// The points of the rolls: each total, no less than zero, times five, summed.
pub open spec fn spec_points(s: Seq<(LocaleTag, RollResultView)>) -> int
    decreases s.len(),
{
    if s.len() == 0 { 0 } else { spec_points(s.drop_last()) + spec_clamped_result(s.last().1) * 5 }
}

/// The lowest points of a roll.
pub open spec fn spec_lowest_points(s: Seq<(LocaleTag, RollResultView)>) -> int
    decreases s.len(),
{
    if s.len() <= 1 {
        spec_clamped_result(s[0].1) * 5
    } else {
        let m = spec_lowest_points(s.drop_last());
        let x = spec_clamped_result(s.last().1) * 5;
        if x < m { x } else { m }
    }
}

/// What the rolls hold.
pub open spec fn spec_roll_map_views(s: Seq<(LocaleTag, RollResult)>) -> Seq<(LocaleTag, RollResultView)> {
    s.map_values(|e: (LocaleTag, RollResult)| (e.0, e.1@))
}

/// The points of each roll and their sum fit an `i32`.
pub open spec fn spec_points_fit(s: Seq<(LocaleTag, RollResultView)>) -> bool {
    &&& forall|i: int| 0 <= i < s.len() ==> spec_clamped_result(#[trigger] s[i].1) * 5 <= i32::MAX
    &&& spec_points(s) <= i32::MAX
}

proof fn lemma_points_prefix(s: Seq<(LocaleTag, RollResultView)>, k: int)
    requires
        0 <= k <= s.len(),
    ensures
        0 <= spec_points(s.take(k)) <= spec_points(s),
    decreases s.len() - k,
{
    if k < s.len() {
        lemma_points_prefix(s, k + 1);
        assert(s.take(k + 1).drop_last() =~= s.take(k));
        lemma_points_nonneg(s.take(k));
    } else {
        assert(s.take(k) =~= s);
        lemma_points_nonneg(s);
    }
}

proof fn lemma_points_nonneg(s: Seq<(LocaleTag, RollResultView)>)
    ensures
        spec_points(s) >= 0,
    decreases s.len(),
{
    if s.len() > 0 {
        lemma_points_nonneg(s.drop_last());
    }
}

fn roll_attribute<D: DiceRng>(rng: &mut D, tag: LocaleTag, core: Option<LocaleTag>) -> (r: RollResult)
    ensures
        spec_attribute_roll_ok(tag, core, r@),
{
    let one = Multiplier::one();
    if core == Some(tag) {
        roll_dice_no_query(rng, 1, 6, one, 13)
    } else if tag == LocaleTag::Size || tag == LocaleTag::Intelligence || tag == LocaleTag::Education {
        roll_dice_no_query(rng, 2, 6, one, 6)
    } else {
        roll_dice_no_query(rng, 3, 6, one, 0)
    }
}

impl AttributeRollResult {
    /// Rolls the characteristics; a pulp hero's core characteristic is
    /// rolled again as 1d6+13.
    pub fn new<D: DiceRng>(rng: &mut D, pulp_core_attribute: Option<&str>) -> (r: Self)
        requires
            pulp_core_attribute is Some ==> (spec_core_tag(pulp_core_attribute) matches Some(t)
                && spec_attribute_roll_tags().contains(t)),
        ensures
            r.is_pulp == pulp_core_attribute is Some,
            r.roll_map@.len() == 8,
            forall|i: int| 0 <= i < 8 ==> (#[trigger] r.roll_map@[i]).0 == spec_attribute_roll_tags()[i]
                && spec_attribute_roll_ok(r.roll_map@[i].0, spec_core_tag(pulp_core_attribute), r.roll_map@[i].1@),
    {
        let ghost tags = spec_attribute_roll_tags();
        let mut rolls: Vec<(LocaleTag, RollResult)> = Vec::new();
        let order = [
            LocaleTag::Strength,
            LocaleTag::Constitution,
            LocaleTag::Size,
            LocaleTag::Dexterity,
            LocaleTag::Appearance,
            LocaleTag::Intelligence,
            LocaleTag::Power,
            LocaleTag::Education,
        ];
        assert(order@ =~= tags);
        let mut i: usize = 0;
        while i < 8
            invariant
                order@ == tags,
                tags == spec_attribute_roll_tags(),
                i <= 8,
                rolls@.len() == i,
                forall|k: int| 0 <= k < i ==> (#[trigger] rolls@[k]).0 == tags[k]
                    && spec_attribute_roll_ok(rolls@[k].0, None, rolls@[k].1@),
            decreases 8 - i,
        {
            let tag = order[i];
            let r = roll_attribute(rng, tag, None);
            rolls.push((tag, r));
            i += 1;
        }
        let core = match pulp_core_attribute {
            Some(n) => locale_tag_by_str(n),
            None => None,
        };
        let mut is_pulp = false;
        match core {
            Some(tag_to_find) => {
                is_pulp = true;
                let mut j: usize = 0;
                while j < 8 && order[j] != tag_to_find
                    invariant
                        order@ == tags,
                        j <= 8,
                        forall|k: int| 0 <= k < j ==> tags[k] != tag_to_find,
                    decreases 8 - j,
                {
                    j += 1;
                }
                proof {
                    if j == 8 {
                        let w = choose|w: int| 0 <= w < tags.len() && tags[w] == tag_to_find;
                        assert(tags[w] != tag_to_find);
                    }
                }
                let r = roll_attribute(rng, tag_to_find, core);
                rolls.set(j, (tag_to_find, r));
                assert forall|k: int| 0 <= k < 8 implies (#[trigger] rolls@[k]).0 == tags[k]
                    && spec_attribute_roll_ok(rolls@[k].0, core, rolls@[k].1@) by {
                    if k != j {
                        assert(tags[k] != tag_to_find) by {
                            if k > j {
                                assert(tags[j as int] == tag_to_find);
                                assert(tags[k] != tags[j as int]);
                            }
                        }
                        assert(spec_attribute_dice(tags[k], core) == spec_attribute_dice(tags[k], None));
                    }
                }
            },
            None => {},
        }
        AttributeRollResult { roll_map: rolls, is_pulp }
    }

    /// The sum of points that the quick rules give.
    pub fn quick_rules_pts(&self) -> (r: i32)
        ensures
            r == (if self.is_pulp { 500i32 } else { 460i32 }),
    {
        if self.is_pulp { 500 } else { 460 }
    }

    pub fn points_sum(&self) -> (r: i32)
        requires
            spec_points_fit(spec_roll_map_views(self.roll_map@)),
        ensures
            r == spec_points(spec_roll_map_views(self.roll_map@)),
    {
        let ghost v = spec_roll_map_views(self.roll_map@);
        let mut sum: i32 = 0;
        let mut i: usize = 0;
        assert(v.take(0) =~= Seq::<(LocaleTag, RollResultView)>::empty());
        while i < self.roll_map.len()
            invariant
                v == spec_roll_map_views(self.roll_map@),
                spec_points_fit(v),
                i <= v.len(),
                sum == spec_points(v.take(i as int)),
            decreases v.len() - i,
        {
            proof {
                assert(v.take(i as int + 1).drop_last() =~= v.take(i as int));
                lemma_points_prefix(v, i as int + 1);
                assert(spec_clamped_result(v[i as int].1) * 5 <= i32::MAX);
            }
            let pts = self.roll_map[i].1.result() * 5;
            sum = sum + pts;
            i += 1;
        }
        assert(v.take(v.len() as int) =~= v);
        sum
    }

    /// The points reach exactly the sum of the quick rules.
    pub fn is_sum_eq_quick_rules(&self) -> (r: bool)
        requires
            spec_points_fit(spec_roll_map_views(self.roll_map@)),
        ensures
            r == (spec_points(spec_roll_map_views(self.roll_map@)) == (if self.is_pulp { 500int } else { 460int })),
    {
        self.points_sum() == self.quick_rules_pts()
    }

    /// The points fall short of the sum of the quick rules.
    pub fn is_sum_lt_quick_rules(&self) -> (r: bool)
        requires
            spec_points_fit(spec_roll_map_views(self.roll_map@)),
        ensures
            r == (spec_points(spec_roll_map_views(self.roll_map@)) < (if self.is_pulp { 500int } else { 460int })),
    {
        self.points_sum() < self.quick_rules_pts()
    }

    /// The lowest points of a characteristic.
    pub fn lowest_attribute_value(&self) -> (r: i32)
        requires
            self.roll_map.len() > 0,
            forall|i: int| 0 <= i < self.roll_map@.len() ==> spec_clamped_result((#[trigger] self.roll_map@[i]).1@) * 5 <= i32::MAX,
        ensures
            r == spec_lowest_points(spec_roll_map_views(self.roll_map@)),
    {
        let ghost v = spec_roll_map_views(self.roll_map@);
        assert(spec_clamped_result(v[0].1) * 5 <= i32::MAX);
        let mut low: i32 = self.roll_map[0].1.result() * 5;
        let mut i: usize = 1;
        assert(v.take(1).len() == 1);
        while i < self.roll_map.len()
            invariant
                v == spec_roll_map_views(self.roll_map@),
                forall|k: int| 0 <= k < v.len() ==> spec_clamped_result((#[trigger] v[k]).1) * 5 <= i32::MAX,
                1 <= i <= v.len(),
                low == spec_lowest_points(v.take(i as int)),
            decreases v.len() - i,
        {
            assert(v.take(i as int + 1).drop_last() =~= v.take(i as int));
            assert(spec_clamped_result(v[i as int].1) * 5 <= i32::MAX);
            let x = self.roll_map[i].1.result() * 5;
            if x < low {
                low = x;
            }
            i += 1;
        }
        assert(v.take(v.len() as int) =~= v);
        low
    }
}

/// Rolls the characteristics with the thread-local generator.
pub fn roll_attributes(pulp_core_attribute: Option<&str>) -> (r: AttributeRollResult)
    requires
        pulp_core_attribute is Some ==> (spec_core_tag(pulp_core_attribute) matches Some(t)
            && spec_attribute_roll_tags().contains(t)),
    ensures
        r.is_pulp == pulp_core_attribute is Some,
        r.roll_map@.len() == 8,
        forall|i: int| 0 <= i < 8 ==> (#[trigger] r.roll_map@[i]).0 == spec_attribute_roll_tags()[i]
            && spec_attribute_roll_ok(r.roll_map@[i].0, spec_core_tag(pulp_core_attribute), r.roll_map@[i].1@),
{
    let mut rng = RealRng::new();
    AttributeRollResult::new(&mut rng, pulp_core_attribute)
}

} // verus!
