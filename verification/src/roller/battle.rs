//! Initiative order of a fight.
use crate::locale::spec_remove_spaces;
use crate::roller::croll::{croll_impl, spec_croll_query, CrollResult, CrollView};
use crate::roller::success_level::spec_rank;
use crate::text::{eq_ignore_case, spec_eq_ignore_case, spec_words, split_whitespace, str_equal};
use vstd::prelude::*;

verus! {

/// A fighter and the skill test that placed it in the initiative order.
#[derive(Debug)]
pub struct CharacterInitiative {
    pub croll_result: CrollResult,
    pub name: String,
}

pub struct InitiativeView {
    pub croll_result: CrollView,
    pub name: Seq<char>,
}

impl View for CharacterInitiative {
    type V = InitiativeView;

    open spec fn view(&self) -> InitiativeView {
        InitiativeView { croll_result: self.croll_result@, name: self.name@ }
    }
}

impl Clone for CharacterInitiative {
    fn clone(&self) -> (r: Self)
        ensures
            r@ == self@,
    {
        CharacterInitiative { croll_result: self.croll_result.clone(), name: self.name.clone() }
    }
}

/// Why a list of fighters could not be read.
#[derive(Debug, Clone, Copy, PartialEq, Eq, Structural)]
pub enum InitiativeListError {
    /// The words do not pair up as names and thresholds.
    OddList,
    /// A threshold does not read as a skill test.
    InvalidThreshold,
    /// A name comes twice, up to ASCII case.
    NotUnique,
}

/// What is wrong with the `k`-th pair of words, if anything: its threshold
/// does not read, or (where names must differ) its name came before.
pub open spec fn spec_pair_error(words: Seq<Seq<char>>, k: int, unique: bool) -> Option<InitiativeListError> {
    if spec_croll_query(spec_remove_spaces(words[2 * k + 1])) is None {
        Some(InitiativeListError::InvalidThreshold)
    } else if unique && exists|j: int| 0 <= j < k && spec_eq_ignore_case(#[trigger] words[2 * j], words[2 * k]) {
        Some(InitiativeListError::NotUnique)
    } else {
        None
    }
}

/// The first error among the first `n` pairs, if any.
pub open spec fn spec_list_error(words: Seq<Seq<char>>, n: int, unique: bool) -> Option<InitiativeListError>
    decreases n,
{
    if n <= 0 {
        None
    } else {
        match spec_list_error(words, n - 1, unique) {
            Some(e) => Some(e),
            None => spec_pair_error(words, n - 1, unique),
        }
    }
}

/// Once a pair has an error, it is the first error of every longer prefix.
proof fn lemma_list_error_stays(words: Seq<Seq<char>>, k: int, m: int, unique: bool)
    requires
        0 <= k < m,
        spec_list_error(words, k + 1, unique) is Some,
    ensures
        spec_list_error(words, m, unique) == spec_list_error(words, k + 1, unique),
    decreases m - k,
{
    if m > k + 1 {
        lemma_list_error_stays(words, k, m - 1, unique);
    }
}

/// Reads a list of fighters, `Name threshold` pairs apart by whitespace,
/// and makes each one's initiative test; with `unique`, no name may come
/// twice.
pub fn initiative_list(list: &str, unique: bool) -> (r: Result<Vec<CharacterInitiative>, InitiativeListError>)
    requires
        list@.len() < i32::MAX,
    ensures
        ({
            let words = spec_words(list@);
            if words.len() % 2 == 1 {
                r == Err::<Vec<CharacterInitiative>, InitiativeListError>(InitiativeListError::OddList)
            } else {
                match spec_list_error(words, (words.len() / 2) as int, unique) {
                    Some(e) => r == Err::<Vec<CharacterInitiative>, InitiativeListError>(e),
                    None => r matches Ok(v) && v@.len() == words.len() / 2 && forall|k: int| 0 <= k < v@.len() ==> {
                        &&& (#[trigger] v@[k]).name@ == words[2 * k]
                        &&& v@[k].croll_result@.query == words[2 * k + 1]
                        &&& v@[k].croll_result@.threshold == (spec_croll_query(spec_remove_spaces(words[2 * k + 1]))->0).0
                    },
                }
            }
        }),
{
    let words = split_whitespace(list);
    let ghost wv = words@.map_values(|w: String| w@);
    if words.len() % 2 == 1 {
        return Err(InitiativeListError::OddList);
    }
    let n_words = words.len();
    let pairs = n_words / 2;
    let mut out: Vec<CharacterInitiative> = Vec::new();
    let mut k: usize = 0;
    while k < pairs
        invariant
            wv == words@.map_values(|w: String| w@),
            wv == spec_words(list@),
            list@.len() < i32::MAX,
            forall|m: int| 0 <= m < words@.len() ==> #[trigger] words@[m]@.len() <= list@.len(),
            words@.len() % 2 == 0,
            n_words == words@.len(),
            pairs == words@.len() / 2,
            k <= pairs,
            spec_list_error(wv, k as int, unique) is None,
            out@.len() == k,
            forall|m: int| 0 <= m < k ==> {
                &&& (#[trigger] out@[m]).name@ == wv[2 * m]
                &&& out@[m].croll_result@.query == wv[2 * m + 1]
                &&& out@[m].croll_result@.threshold == (spec_croll_query(spec_remove_spaces(wv[2 * m + 1]))->0).0
            },
        decreases pairs - k,
    {
        assert(2 * (k as int) + 1 < words@.len());
        let name = words[2 * k].as_str();
        let threshold = words[2 * k + 1].as_str();
        assert(wv[2 * k as int] == name@);
        assert(wv[2 * k as int + 1] == threshold@);
        let croll_result = match croll_impl(threshold) {
            Ok(c) => c,
            Err(_) => {
                proof {
                    lemma_list_error_stays(wv, k as int, pairs as int, unique);
                }
                return Err(InitiativeListError::InvalidThreshold);
            },
        };
        assert(spec_croll_query(spec_remove_spaces(wv[2 * k as int + 1])) is Some);
        if unique {
            let mut j: usize = 0;
            while j < k
                invariant
                    j <= k,
                    k < pairs,
                    unique,
                    wv == spec_words(list@),
                    words@.len() % 2 == 0,
                    pairs == words@.len() / 2,
                    spec_list_error(wv, k as int, unique) is None,
                    spec_croll_query(spec_remove_spaces(wv[2 * k as int + 1])) is Some,
                    out@.len() == k,
                    wv == words@.map_values(|w: String| w@),
                    name@ == wv[2 * k as int],
                    forall|m: int| 0 <= m < k ==> (#[trigger] out@[m]).name@ == wv[2 * m],
                    forall|m: int| 0 <= m < j ==> !spec_eq_ignore_case(#[trigger] wv[2 * m], wv[2 * k as int]),
                decreases k - j,
            {
                if eq_ignore_case(out[j].name.as_str(), name) {
                    assert(spec_eq_ignore_case(wv[2 * j as int], wv[2 * k as int]));
                    proof {
                        let jj = j as int;
                        assert(0 <= jj < k && spec_eq_ignore_case(wv[2 * jj], wv[2 * k as int]));
                        assert(spec_pair_error(wv, k as int, unique) == Some(InitiativeListError::NotUnique));
                        assert(spec_list_error(wv, k as int + 1, unique) == Some(InitiativeListError::NotUnique));
                        lemma_list_error_stays(wv, k as int, pairs as int, unique);
                    }
                    return Err(InitiativeListError::NotUnique);
                }
                j += 1;
            }
        }
        out.push(CharacterInitiative { croll_result, name: String::from_str(name) });
        k += 1;
    }
    Ok(out)
}

/// Sign of the comparison of two integers.
pub open spec fn spec_sign_diff(a: int, b: int) -> int {
    if a < b { -1 } else if a > b { 1 } else { 0 }
}

/// Order of two skill tests in a fight: the higher level of success goes
/// first, then the higher skill, then the lower roll. Negative when `a`
/// goes first, positive when `b` does, zero when they tie.
pub open spec fn spec_croll_order(a: CrollView, b: CrollView) -> int {
    let ra = spec_rank(a.success_level) as int;
    let rb = spec_rank(b.success_level) as int;
    if ra != rb {
        spec_sign_diff(rb, ra)
    } else if a.threshold != b.threshold {
        spec_sign_diff(b.threshold as int, a.threshold as int)
    } else {
        spec_sign_diff(a.result as int, b.result as int)
    }
}

/// Lexicographic order of two texts, by code point (the order of `String`).
pub open spec fn spec_str_order(a: Seq<char>, b: Seq<char>) -> int
    decreases a.len(),
{
    if a.len() == 0 && b.len() == 0 {
        0
    } else if a.len() == 0 {
        -1
    } else if b.len() == 0 {
        1
    } else if a[0] != b[0] {
        spec_sign_diff(a[0] as int, b[0] as int)
    } else {
        spec_str_order(a.drop_first(), b.drop_first())
    }
}

/// Order of two fighters: by their skill tests, then by name.
pub open spec fn spec_initiative_order(a: InitiativeView, b: InitiativeView) -> int {
    let c = spec_croll_order(a.croll_result, b.croll_result);
    if c != 0 { c } else { spec_str_order(a.name, b.name) }
}

/// Each fighter goes no later than the one after it.
pub open spec fn spec_ordered(s: Seq<InitiativeView>) -> bool {
    forall|i: int| 0 <= i < s.len() - 1 ==> #[trigger] spec_initiative_order(s[i], s[i + 1]) <= 0
}

pub proof fn lemma_str_order_antisymmetric(a: Seq<char>, b: Seq<char>)
    ensures
        spec_str_order(a, b) == -spec_str_order(b, a),
    decreases a.len(),
{
    if a.len() > 0 && b.len() > 0 && a[0] == b[0] {
        lemma_str_order_antisymmetric(a.drop_first(), b.drop_first());
    }
}

pub proof fn lemma_initiative_order_antisymmetric(a: InitiativeView, b: InitiativeView)
    ensures
        spec_initiative_order(a, b) == -spec_initiative_order(b, a),
{
    lemma_str_order_antisymmetric(a.name, b.name);
}

pub proof fn lemma_str_order_transitive(a: Seq<char>, b: Seq<char>, c: Seq<char>)
    requires
        spec_str_order(a, b) <= 0,
        spec_str_order(b, c) <= 0,
    ensures
        spec_str_order(a, c) <= 0,
    decreases a.len(),
{
    if a.len() > 0 && b.len() > 0 && c.len() > 0 && a[0] == b[0] && b[0] == c[0] {
        lemma_str_order_transitive(a.drop_first(), b.drop_first(), c.drop_first());
    }
}

pub proof fn lemma_initiative_order_transitive(a: InitiativeView, b: InitiativeView, c: InitiativeView)
    requires
        spec_initiative_order(a, b) <= 0,
        spec_initiative_order(b, c) <= 0,
    ensures
        spec_initiative_order(a, c) <= 0,
{
    if spec_croll_order(a.croll_result, b.croll_result) == 0 && spec_croll_order(b.croll_result, c.croll_result) == 0 {
        lemma_str_order_transitive(a.name, b.name, c.name);
    }
}

/// `a` may act before `b`: a level of success at least as high; at the same
/// level a skill at least as high; at the same level and skill a roll no
/// higher.
pub open spec fn spec_acts_before(a: InitiativeView, b: InitiativeView) -> bool {
    &&& spec_rank(a.croll_result.success_level) >= spec_rank(b.croll_result.success_level)
    &&& spec_rank(a.croll_result.success_level) == spec_rank(b.croll_result.success_level)
        ==> a.croll_result.threshold >= b.croll_result.threshold
    &&& spec_rank(a.croll_result.success_level) == spec_rank(b.croll_result.success_level)
        && a.croll_result.threshold == b.croll_result.threshold ==> a.croll_result.result <= b.croll_result.result
}

/// Of two fighters, the one whose test reached the higher level of success
/// goes first; at the same level the one with the higher skill goes first;
/// at the same level and skill the one with the lower roll goes first.
pub proof fn lemma_initiative_precedence(a: InitiativeView, b: InitiativeView)
    ensures
        spec_rank(a.croll_result.success_level) > spec_rank(b.croll_result.success_level) ==> spec_initiative_order(a, b) < 0,
        spec_rank(a.croll_result.success_level) == spec_rank(b.croll_result.success_level)
            && a.croll_result.threshold > b.croll_result.threshold ==> spec_initiative_order(a, b) < 0,
        spec_rank(a.croll_result.success_level) == spec_rank(b.croll_result.success_level)
            && a.croll_result.threshold == b.croll_result.threshold
            && a.croll_result.result < b.croll_result.result ==> spec_initiative_order(a, b) < 0,
{
}

/// In an ordered fight, each fighter comes no later than every fighter
/// after it, not only the next one.
proof fn lemma_ordered_pairwise(s: Seq<InitiativeView>, i: int, j: int)
    requires
        spec_ordered(s),
        0 <= i < j < s.len(),
    ensures
        spec_initiative_order(s[i], s[j]) <= 0,
    decreases j - i,
{
    assert(spec_initiative_order(s[i], s[i + 1]) <= 0);
    if i + 1 < j {
        lemma_ordered_pairwise(s, i + 1, j);
        lemma_initiative_order_transitive(s[i], s[i + 1], s[j]);
    }
}

/// In an ordered fight, a fighter placed before another reached a level of
/// success at least as high; at the same level, a skill at least as high;
/// at the same level and skill, a roll no higher.
pub proof fn lemma_ordered_fight(s: Seq<InitiativeView>, i: int, j: int)
    requires
        spec_ordered(s),
        0 <= i < j < s.len(),
    ensures
        spec_rank(s[i].croll_result.success_level) >= spec_rank(s[j].croll_result.success_level),
        spec_rank(s[i].croll_result.success_level) == spec_rank(s[j].croll_result.success_level)
            ==> s[i].croll_result.threshold >= s[j].croll_result.threshold,
        spec_rank(s[i].croll_result.success_level) == spec_rank(s[j].croll_result.success_level)
            && s[i].croll_result.threshold == s[j].croll_result.threshold
            ==> s[i].croll_result.result <= s[j].croll_result.result,
{
    lemma_ordered_pairwise(s, i, j);
    lemma_initiative_precedence(s[j], s[i]);
    lemma_initiative_order_antisymmetric(s[i], s[j]);
}

/// `spec_str_order` of two strings.
pub fn str_order(a: &str, b: &str) -> (r: i8)
    ensures
        r as int == spec_str_order(a@, b@),
{
    let n = a.unicode_len();
    let m = b.unicode_len();
    let mut i: usize = 0;
    assert(a@.skip(0) =~= a@);
    assert(b@.skip(0) =~= b@);
    while i < n && i < m
        invariant
            n == a@.len(),
            m == b@.len(),
            i <= n,
            i <= m,
            spec_str_order(a@, b@) == spec_str_order(a@.skip(i as int), b@.skip(i as int)),
        decreases n - i,
    {
        let x = a.get_char(i);
        let y = b.get_char(i);
        assert(a@.skip(i as int)[0] == x);
        assert(b@.skip(i as int)[0] == y);
        if x < y {
            return -1;
        } else if x > y {
            return 1;
        }
        assert(a@.skip(i as int).drop_first() =~= a@.skip(i as int + 1));
        assert(b@.skip(i as int).drop_first() =~= b@.skip(i as int + 1));
        i += 1;
    }
    if n == i && m == i {
        0
    } else if n == i {
        -1
    } else {
        1
    }
}

fn sign_diff(a: i32, b: i32) -> (r: i8)
    ensures
        r as int == spec_sign_diff(a as int, b as int),
{
    if a < b { -1 } else if a > b { 1 } else { 0 }
}

/// Sequences with the same fighters take the same names.
pub proof fn lemma_same_multiset_same_names(a: Seq<InitiativeView>, b: Seq<InitiativeView>, name: Seq<char>)
    requires
        a.to_multiset() == b.to_multiset(),
    ensures
        spec_name_taken(a, name) <==> spec_name_taken(b, name),
{
    broadcast use vstd::seq_lib::group_to_multiset_ensures;
    if spec_name_taken(a, name) {
        let i = choose|i: int| 0 <= i < a.len() && spec_eq_ignore_case(#[trigger] a[i].name, name);
        vstd::seq_lib::to_multiset_contains(a, a[i]);
        vstd::seq_lib::to_multiset_contains(b, a[i]);
        assert(a.contains(a[i]));
        assert(b.contains(a[i]));
        let j = choose|j: int| 0 <= j < b.len() && b[j] == a[i];
        assert(spec_eq_ignore_case(b[j].name, name));
    }
    if spec_name_taken(b, name) {
        let i = choose|i: int| 0 <= i < b.len() && spec_eq_ignore_case(#[trigger] b[i].name, name);
        vstd::seq_lib::to_multiset_contains(a, b[i]);
        vstd::seq_lib::to_multiset_contains(b, b[i]);
        assert(b.contains(b[i]));
        assert(a.contains(b[i]));
        let j = choose|j: int| 0 <= j < a.len() && a[j] == b[i];
        assert(spec_eq_ignore_case(a[j].name, name));
    }
}

impl CharacterInitiative {
    /// `spec_initiative_order` of two fighters.
    pub fn order(&self, other: &CharacterInitiative) -> (r: i8)
        ensures
            r as int == spec_initiative_order(self@, other@),
    {
        let ra = self.croll_result.success_level.rank();
        let rb = other.croll_result.success_level.rank();
        let c: i8 = if ra != rb {
            if rb < ra { -1 } else { 1 }
        } else if self.croll_result.threshold != other.croll_result.threshold {
            sign_diff(other.croll_result.threshold, self.croll_result.threshold)
        } else {
            sign_diff(self.croll_result.result(), other.croll_result.result())
        };
        if c != 0 {
            c
        } else {
            str_order(self.name.as_str(), other.name.as_str())
        }
    }
}

/// A fight: fighters in initiative order and whose turn it is.
#[derive(Debug)]
pub struct Battle {
    pub characters: Vec<CharacterInitiative>,
    pub current_position: usize,
}

/// The views of a list of fighters.
pub open spec fn spec_views(v: Seq<CharacterInitiative>) -> Seq<InitiativeView> {
    v.map_values(|c: CharacterInitiative| c@)
}

/// The position at which a fighter joins an ordered list: after every
/// fighter that goes no later than it.
pub open spec fn spec_insert_position(s: Seq<InitiativeView>, x: InitiativeView, p: int) -> bool {
    &&& 0 <= p <= s.len()
    &&& forall|i: int| 0 <= i < p ==> spec_initiative_order(x, #[trigger] s[i]) >= 0
    &&& p < s.len() ==> spec_initiative_order(x, s[p]) < 0
}

/// Inserts a fighter into an ordered list after every fighter that goes no
/// later than it.
fn insert_ordered(v: &mut Vec<CharacterInitiative>, c: CharacterInitiative)
    requires
        spec_ordered(spec_views(old(v)@)),
    ensures
        spec_ordered(spec_views(final(v)@)),
        exists|p: int| spec_insert_position(spec_views(old(v)@), c@, p)
            && spec_views(final(v)@) == spec_views(old(v)@).insert(p, c@),
{
    let ghost old_views = spec_views(v@);
    let mut p: usize = 0;
    let mut found = false;
    while p < v.len() && !found
        invariant
            v@ == old(v)@,
            old_views == spec_views(v@),
            p <= v@.len(),
            forall|i: int| 0 <= i < p ==> spec_initiative_order(c@, #[trigger] old_views[i]) >= 0,
            found ==> p < v@.len() && spec_initiative_order(c@, old_views[p as int]) < 0,
        decreases v@.len() - p, if found { 0int } else { 1int },
    {
        assert(old_views[p as int] == v@[p as int]@);
        if c.order(&v[p]) < 0 {
            found = true;
        } else {
            p += 1;
        }
    }
    let ghost cv = c@;
    v.insert(p, c);
    proof {
        let nv = spec_views(v@);
        assert(nv =~= old_views.insert(p as int, cv));
        assert forall|i: int| 0 <= i < nv.len() - 1 implies #[trigger] spec_initiative_order(nv[i], nv[i + 1]) <= 0 by {
            if i + 1 < p {
                assert(nv[i] == old_views[i] && nv[i + 1] == old_views[i + 1]);
                assert(spec_initiative_order(old_views[i], old_views[i + 1]) <= 0);
            } else if i + 1 == p {
                assert(nv[i] == old_views[i] && nv[i + 1] == cv);
                lemma_initiative_order_antisymmetric(cv, old_views[i]);
            } else if i == p {
                assert(nv[i] == cv && nv[i + 1] == old_views[i]);
            } else {
                assert(nv[i] == old_views[i - 1] && nv[i + 1] == old_views[i]);
                assert(spec_initiative_order(old_views[i - 1], old_views[(i - 1) + 1]) <= 0);
            }
        }
        assert(spec_insert_position(old_views, cv, p as int));
    }
}

/// The turn after `position` in a fight of `len` fighters.
pub open spec fn spec_next_position(position: int, len: int) -> int {
    (position + 1) % len
}

/// The turn before `position` in a fight of `len` fighters.
pub open spec fn spec_previous_position(position: int, len: int) -> int {
    (if position == 0 { len - 1 } else { position - 1 }) % len
}

/// Passing the turn on and then back returns it to whoever had it.
pub proof fn lemma_next_then_previous(position: int, len: int)
    requires
        0 <= position < len,
    ensures
        spec_previous_position(spec_next_position(position, len), len) == position,
{
    vstd::arithmetic::div_mod::lemma_small_mod(position as nat, len as nat);
    if position + 1 < len {
        vstd::arithmetic::div_mod::lemma_small_mod((position + 1) as nat, len as nat);
    } else {
        vstd::arithmetic::div_mod::lemma_mod_self_0(len);
    }
}

/// Passing the turn back and then on returns it to whoever had it.
pub proof fn lemma_previous_then_next(position: int, len: int)
    requires
        0 <= position < len,
    ensures
        spec_next_position(spec_previous_position(position, len), len) == position,
{
    if position == 0 {
        vstd::arithmetic::div_mod::lemma_small_mod((len - 1) as nat, len as nat);
        vstd::arithmetic::div_mod::lemma_mod_self_0(len);
    } else {
        vstd::arithmetic::div_mod::lemma_small_mod((position - 1) as nat, len as nat);
        vstd::arithmetic::div_mod::lemma_small_mod(position as nat, len as nat);
    }
}

/// Some fighter's name equals `name`, ignoring ASCII case.
pub open spec fn spec_name_taken(s: Seq<InitiativeView>, name: Seq<char>) -> bool {
    exists|i: int| 0 <= i < s.len() && spec_eq_ignore_case(#[trigger] s[i].name, name)
}

/// The first fighter named exactly `name`.
pub open spec fn spec_first_named(s: Seq<InitiativeView>, name: Seq<char>, k: int) -> bool {
    &&& 0 <= k < s.len()
    &&& s[k].name == name
    &&& forall|i: int| 0 <= i < k ==> (#[trigger] s[i]).name != name
}

/// The message of a fighter that is already in the fight.
pub open spec fn spec_already_in_battle(name: Seq<char>) -> Seq<char> {
    "Character `"@ + name + "` already in battle!"@
}

/// The message of a fighter that is not in the fight.
pub open spec fn spec_not_in_battle(name: Seq<char>) -> Seq<char> {
    "Character `"@ + name + "` not found."@
}

/// The fighters that `fresh` holds, up to and without the first whose name
/// is taken by one already there or by one before it.
pub open spec fn spec_joinable_prefix(s: Seq<InitiativeView>, fresh: Seq<InitiativeView>, k: int) -> bool {
    &&& 0 <= k <= fresh.len()
    &&& forall|j: int| 0 <= j < k ==> !spec_name_taken(s + fresh.take(j), #[trigger] fresh[j].name)
}

impl Battle {
    /// The fighters are in initiative order.
    pub open spec fn wf(&self) -> bool {
        spec_ordered(spec_views(self.characters@))
    }

    /// Passes the turn to the next fighter, back to the first after the last.
    pub fn next_round(&mut self)
        requires
            old(self).characters@.len() > 0,
            old(self).current_position < usize::MAX,
        ensures
            final(self).characters@ == old(self).characters@,
            final(self).current_position as int
                == spec_next_position(old(self).current_position as int, old(self).characters@.len() as int),
    {
        self.current_position += 1;
        self.current_position %= self.characters.len();
    }

    /// Passes the turn back to the previous fighter, to the last before the first.
    pub fn previous_round(&mut self)
        requires
            old(self).characters@.len() > 0,
        ensures
            final(self).characters@ == old(self).characters@,
            final(self).current_position as int
                == spec_previous_position(old(self).current_position as int, old(self).characters@.len() as int),
    {
        if self.current_position == 0 {
            self.current_position = self.characters.len() - 1;
        } else {
            self.current_position -= 1;
        }
        self.current_position %= self.characters.len();
    }

    /// Adds a fighter in initiative order, unless one of that name (ignoring
    /// ASCII case) is already in the fight.
    pub fn add_character(&mut self, character: &CharacterInitiative) -> (r: Result<(), String>)
        requires
            old(self).wf(),
        ensures
            final(self).wf(),
            final(self).current_position == old(self).current_position,
            r is Err <==> spec_name_taken(spec_views(old(self).characters@), character@.name),
            r matches Err(m) ==> m@ == spec_already_in_battle(character@.name)
                && final(self).characters@ == old(self).characters@,
            r is Ok ==> exists|p: int| spec_insert_position(spec_views(old(self).characters@), character@, p)
                && spec_views(final(self).characters@) == spec_views(old(self).characters@).insert(p, character@),
    {
        let ghost views = spec_views(self.characters@);
        let mut i: usize = 0;
        while i < self.characters.len()
            invariant
                old(self).wf(),
                self.current_position == old(self).current_position,
                self.characters@ == old(self).characters@,
                views == spec_views(self.characters@),
                i <= self.characters@.len(),
                forall|j: int| 0 <= j < i ==> !spec_eq_ignore_case(#[trigger] views[j].name, character@.name),
            decreases self.characters@.len() - i,
        {
            assert(views[i as int] == self.characters@[i as int]@);
            if eq_ignore_case(self.characters[i].name.as_str(), character.name.as_str()) {
                assert(views[i as int].name == self.characters@[i as int].name@);
                assert(spec_eq_ignore_case(views[i as int].name, character@.name));
                assert(spec_name_taken(views, character@.name));
                let mut m = String::from_str("Character `");
                m.append(character.name.as_str());
                m.append("` already in battle!");
                return Err(m);
            }
            i += 1;
        }
        insert_ordered(&mut self.characters, character.clone());
        Ok(())
    }

    /// Adds fighters one by one, stopping at the first whose name is taken.
    pub fn add_characters(&mut self, characters: &[CharacterInitiative]) -> (r: Result<(), String>)
        requires
            old(self).wf(),
        ensures
            final(self).wf(),
            final(self).current_position == old(self).current_position,
            r is Ok ==> spec_joinable_prefix(spec_views(old(self).characters@), spec_views(characters@), characters@.len() as int)
                && spec_views(final(self).characters@).to_multiset()
                    == (spec_views(old(self).characters@) + spec_views(characters@)).to_multiset(),
            r matches Err(m) ==> exists|k: int| spec_joinable_prefix(spec_views(old(self).characters@), spec_views(characters@), k)
                && k < characters@.len()
                && spec_name_taken(spec_views(old(self).characters@) + spec_views(characters@).take(k), characters@[k]@.name)
                && m@ == spec_already_in_battle(characters@[k]@.name)
                && spec_views(final(self).characters@).to_multiset()
                    == (spec_views(old(self).characters@) + spec_views(characters@).take(k)).to_multiset(),
    {
        let ghost start = spec_views(self.characters@);
        let ghost fresh = spec_views(characters@);
        let mut k: usize = 0;
        proof {
            assert(fresh.take(0) =~= Seq::<InitiativeView>::empty());
            assert(start + fresh.take(0) =~= start);
        }
        while k < characters.len()
            invariant
                self.wf(),
                self.current_position == old(self).current_position,
                start == spec_views(old(self).characters@),
                fresh == spec_views(characters@),
                spec_joinable_prefix(start, fresh, k as int),
                spec_views(self.characters@).to_multiset() == (start + fresh.take(k as int)).to_multiset(),
            decreases characters@.len() - k,
        {
            let ghost before = spec_views(self.characters@);
            assert(fresh[k as int] == characters@[k as int]@);
            let res = self.add_character(&characters[k]);
            proof {
                broadcast use vstd::seq_lib::group_to_multiset_ensures;
                // names of the fighters now in the fight are those of start and the added prefix
                assert forall|name: Seq<char>| spec_name_taken(before, name) <==> spec_name_taken(start + fresh.take(k as int), name) by {
                    lemma_same_multiset_same_names(before, start + fresh.take(k as int), name);
                }
            }
            match res {
                Err(m) => {
                    return Err(m);
                },
                Ok(()) => {},
            }
            proof {
                broadcast use vstd::seq_lib::group_to_multiset_ensures;
                let p = choose|p: int| spec_insert_position(before, fresh[k as int], p)
                    && spec_views(self.characters@) == before.insert(p, fresh[k as int]);
                assert((start + fresh.take(k as int + 1)) =~= (start + fresh.take(k as int)).push(fresh[k as int]));
                assert forall|j: int| 0 <= j < k + 1 implies !spec_name_taken(start + fresh.take(j), #[trigger] fresh[j].name) by {
                    if j < k {
                    }
                }
            }
            k += 1;
        }
        proof {
            assert(fresh.take(k as int) =~= fresh);
        }
        Ok(())
    }

    /// Removes the first fighter named exactly `name`.
    pub fn remove_character(&mut self, name: &str) -> (r: Result<(), String>)
        requires
            old(self).wf(),
        ensures
            final(self).wf(),
            final(self).current_position == old(self).current_position,
            r is Err <==> forall|i: int| 0 <= i < old(self).characters@.len() ==> (#[trigger] old(self).characters@[i])@.name != name@,
            r matches Err(m) ==> m@ == spec_not_in_battle(name@) && final(self).characters@ == old(self).characters@,
            r is Ok ==> exists|k: int| spec_first_named(spec_views(old(self).characters@), name@, k)
                && spec_views(final(self).characters@) == spec_views(old(self).characters@).remove(k),
    {
        let ghost views = spec_views(self.characters@);
        let mut i: usize = 0;
        while i < self.characters.len()
            invariant
                old(self).wf(),
                self.current_position == old(self).current_position,
                self.characters@ == old(self).characters@,
                views == spec_views(self.characters@),
                i <= self.characters@.len(),
                forall|j: int| 0 <= j < i ==> (#[trigger] self.characters@[j])@.name != name@,
            decreases self.characters@.len() - i,
        {
            if str_equal(self.characters[i].name.as_str(), name) {
                let ghost k = i as int;
                self.characters.remove(i);
                proof {
                    let nv = spec_views(self.characters@);
                    assert(nv =~= views.remove(k));
                    assert forall|j: int| 0 <= j < k implies (#[trigger] views[j]).name != name@ by {
                        assert(views[j] == old(self).characters@[j]@);
                    }
                    assert(spec_first_named(views, name@, k));
                    assert forall|j: int| 0 <= j < nv.len() - 1 implies #[trigger] spec_initiative_order(nv[j], nv[j + 1]) <= 0 by {
                        if j + 1 < k {
                            assert(spec_initiative_order(views[j], views[j + 1]) <= 0);
                        } else if j + 1 == k {
                            assert(spec_initiative_order(views[j], views[j + 1]) <= 0);
                            assert(spec_initiative_order(views[j + 1], views[(j + 1) + 1]) <= 0);
                            lemma_initiative_order_transitive(views[j], views[j + 1], views[j + 2]);
                        } else {
                            assert(spec_initiative_order(views[j + 1], views[(j + 1) + 1]) <= 0);
                        }
                    }
                }
                return Ok(());
            }
            i += 1;
        }
        let mut m = String::from_str("Character `");
        m.append(name);
        m.append("` not found.");
        Err(m)
    }

    /// A fight with the fighters in initiative order, the first one to act.
    pub fn new(characters: Vec<CharacterInitiative>) -> (r: Self)
        ensures
            r.wf(),
            r.current_position == 0,
            spec_ordered(spec_views(r.characters@)),
            spec_views(r.characters@).to_multiset() == spec_views(characters@).to_multiset(),
            forall|i: int, j: int| 0 <= i < j < r.characters@.len()
                ==> spec_acts_before(#[trigger] r.characters@[i]@, #[trigger] r.characters@[j]@),
    {
        let mut sorted: Vec<CharacterInitiative> = Vec::new();
        let mut rest = characters;
        let ghost original = spec_views(rest@);
        let mut taken: usize = 0;
        let total = rest.len();
        proof {
            broadcast use vstd::seq_lib::group_to_multiset_ensures, vstd::multiset::group_multiset_axioms;
            assert(original.take(0) =~= Seq::<InitiativeView>::empty());
            assert(spec_views(sorted@) =~= Seq::<InitiativeView>::empty());
            assert(original.skip(0) =~= original);
            assert(original.len() == total);
        }
        while rest.len() > 0
            invariant
                spec_ordered(spec_views(sorted@)),
                taken <= original.len(),
                original.len() <= usize::MAX,
                spec_views(rest@) == original.skip(taken as int),
                spec_views(sorted@).to_multiset() == original.take(taken as int).to_multiset(),
            decreases rest@.len(),
        {
            let ghost before = spec_views(sorted@);
            let ghost rest_before = rest@;
            let c = rest.remove(0);
            proof {
                assert(spec_views(rest_before)[0] == c@);
                assert(spec_views(rest_before).len() == rest_before.len());
                assert(taken < original.len());
                assert(original.skip(taken as int)[0] == original[taken as int]);
                assert(original[taken as int] == c@);
                assert forall|j: int| 0 <= j < spec_views(rest@).len()
                    implies #[trigger] spec_views(rest@)[j] == original.skip(taken as int + 1)[j] by {
                    assert(rest@[j] == rest_before[j + 1]);
                    assert(spec_views(rest_before)[j + 1] == rest_before[j + 1]@);
                    assert(original.skip(taken as int)[j + 1] == original[taken + j + 1]);
                    assert(original.skip(taken as int + 1)[j] == original[taken + 1 + j]);
                }
                assert(spec_views(rest@) =~= original.skip(taken as int + 1));
            }
            let ghost cv = c@;
            insert_ordered(&mut sorted, c);
            proof {
                broadcast use vstd::seq_lib::group_to_multiset_ensures;
                let p = choose|p: int| spec_insert_position(before, cv, p)
                    && spec_views(sorted@) == before.insert(p, cv);
                assert(original.take(taken as int + 1) =~= original.take(taken as int).push(cv));
            }
            taken += 1;
        }
        proof {
            assert(original.skip(taken as int).len() == 0);
            assert(original.take(taken as int) =~= original);
            let v = spec_views(sorted@);
            assert forall|i: int, j: int| 0 <= i < j < sorted@.len()
                implies spec_acts_before(#[trigger] sorted@[i]@, #[trigger] sorted@[j]@) by {
                lemma_ordered_fight(v, i, j);
                assert(v[i] == sorted@[i]@ && v[j] == sorted@[j]@);
            }
        }
        Battle { characters: sorted, current_position: 0 }
    }
}

} // verus!
