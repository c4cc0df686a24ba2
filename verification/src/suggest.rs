//! Suggestions while a user types a name: the names that hold what was
//! typed so far, in order.
use crate::roller::battle::{lemma_str_order_antisymmetric, lemma_str_order_transitive, spec_str_order, str_order};
use crate::text::{contains_ignore_case, spec_contains_ignore_case};
use crate::utils::{lemma_insert_sorted_at, lemma_sort_by_elems, lemma_sort_by_sorted, lemma_sort_step, spec_sort_by, spec_sorted_by, spec_weak_order};
use vstd::prelude::*;

verus! {

/// What `str::to_lowercase` gives for a text: Unicode's lower case mapping
/// of each of its characters.
pub uninterp spec fn spec_to_lowercase(s: Seq<char>) -> Seq<char>;

/// `str::to_lowercase`. The mapping is Unicode's and is named, not written
/// out: the result is a function of the text alone.
#[verifier::external_body]
fn to_lowercase(s: &str) -> (r: String)
    ensures
        r@ == spec_to_lowercase(s@),
{
    s.to_lowercase()
}

/// `hay` holds `needle` as it stands.
pub open spec fn spec_contains(hay: Seq<char>, needle: Seq<char>) -> bool {
    exists|k: int| 0 <= k && k + needle.len() <= hay.len() && #[trigger] hay.subrange(k, k + needle.len()) == needle
}

/// Whether `hay` holds `needle` (`str::contains`).
pub fn contains(hay: &str, needle: &str) -> (r: bool)
    ensures
        r == spec_contains(hay@, needle@),
{
    let n = hay.unicode_len();
    let m = needle.unicode_len();
    if m > n {
        return false;
    }
    if m == 0 {
        assert(hay@.subrange(0int, 0int + needle@.len()) =~= needle@);
        return true;
    }
    let mut k: usize = 0;
    while k <= n - m
        invariant
            n == hay@.len(),
            m == needle@.len(),
            1 <= m <= n,
            k <= n - m + 1,
            forall|j: int| 0 <= j < k ==> #[trigger] hay@.subrange(j, j + m) != needle@,
        decreases n - m + 1 - k,
    {
        let piece = hay.substring_char(k, k + m);
        if crate::text::str_equal(piece, needle) {
            return true;
        }
        k += 1;
    }
    assert forall|j: int| 0 <= j && j + needle@.len() <= hay@.len() implies #[trigger] hay@.subrange(j, j + needle@.len()) != needle@ by {
        assert(j < k);
    }
    false
}

/// Names come in the order of `String`: by code point.
pub open spec fn spec_name_lt() -> spec_fn(Seq<char>, Seq<char>) -> bool {
    |a: Seq<char>, b: Seq<char>| spec_str_order(a, b) < 0
}

/// The names that hold `partial`, both in lower case.
pub open spec fn spec_lower_match(partial: Seq<char>) -> spec_fn(Seq<char>) -> bool {
    |n: Seq<char>| spec_contains(spec_to_lowercase(n), spec_to_lowercase(partial))
}

/// The names that hold `partial`, up to ASCII case.
pub open spec fn spec_ascii_match(partial: Seq<char>) -> spec_fn(Seq<char>) -> bool {
    |n: Seq<char>| spec_contains_ignore_case(n, partial)
}

/// `s` with each run of equal neighbours kept once.
pub open spec fn spec_dedup(s: Seq<Seq<char>>) -> Seq<Seq<char>>
    decreases s.len(),
{
    if s.len() <= 1 {
        s
    } else {
        let d = spec_dedup(s.drop_last());
        if s[s.len() - 2] == s.last() { d } else { d.push(s.last()) }
    }
}

/// The suggestions for `partial`: the names that hold it, at most `limit`
/// of them where there is a limit, in order, each once with `dedup`.
pub open spec fn spec_suggestions(names: Seq<Seq<char>>, keep: spec_fn(Seq<char>) -> bool, limit: Option<usize>, dedup: bool) -> Seq<Seq<char>> {
    let m = names.filter(keep);
    let m2 = match limit {
        Some(l) => if l < m.len() { m.take(l as int) } else { m },
        None => m,
    };
    let sorted = spec_sort_by(m2, spec_name_lt());
    if dedup { spec_dedup(sorted) } else { sorted }
}

/// The views of a list of texts.
pub open spec fn spec_texts(v: Seq<String>) -> Seq<Seq<char>> {
    v.map_values(|s: String| s@)
}

fn sort_names(v: Vec<String>) -> (r: Vec<String>)
    ensures
        spec_texts(r@) == spec_sort_by(spec_texts(v@), spec_name_lt()),
{
    let ghost input = spec_texts(v@);
    let ghost lt = spec_name_lt();
    let mut out: Vec<String> = Vec::new();
    let mut i: usize = 0;
    assert(input.take(0) =~= Seq::<Seq<char>>::empty());
    assert(spec_texts(out@) =~= spec_sort_by(input.take(0), lt));
    while i < v.len()
        invariant
            input == spec_texts(v@),
            lt == spec_name_lt(),
            i <= v@.len(),
            spec_texts(out@) == spec_sort_by(input.take(i as int), lt),
        decreases v@.len() - i,
    {
        let x = v[i].clone();
        let ghost before = spec_texts(out@);
        let mut p: usize = out.len();
        while p > 0 && str_order(x.as_str(), out[p - 1].as_str()) < 0
            invariant
                p <= out@.len(),
                before == spec_texts(out@),
                lt == spec_name_lt(),
                forall|k: int| p <= k < before.len() ==> lt(x@, #[trigger] before[k]),
            decreases p,
        {
            p = p - 1;
        }
        proof {
            lemma_insert_sorted_at(before, x@, lt, p as int);
            lemma_sort_step(input, lt, i as int);
        }
        let ghost xv = x@;
        out.insert(p, x);
        assert(spec_texts(out@) =~= before.insert(p as int, xv));
        i += 1;
    }
    assert(input.take(v@.len() as int) =~= input);
    out
}

fn dedup_names(v: Vec<String>) -> (r: Vec<String>)
    ensures
        spec_texts(r@) == spec_dedup(spec_texts(v@)),
{
    let ghost input = spec_texts(v@);
    let mut out: Vec<String> = Vec::new();
    let mut i: usize = 0;
    assert(spec_texts(out@) =~= spec_dedup(input.take(0)));
    while i < v.len()
        invariant
            input == spec_texts(v@),
            i <= v@.len(),
            spec_texts(out@) == spec_dedup(input.take(i as int)),
            i > 0 ==> out@.len() > 0 && out@.last()@ == input[i - 1],
        decreases v@.len() - i,
    {
        let ghost before = spec_texts(out@);
        proof {
            assert(input.take(i as int + 1).drop_last() =~= input.take(i as int));
            assert(input.take(i as int + 1).last() == input[i as int]);
            if i > 0 {
                assert(input.take(i as int + 1)[i - 1] == input[i - 1]);
            }
            if i == 0 {
                assert(input.take(1) =~= seq![input[0]]);
            }
        }
        if i == 0 || !crate::text::str_equal(v[i - 1].as_str(), v[i].as_str()) {
            let x = v[i].clone();
            let ghost xv = x@;
            out.push(x);
            assert(spec_texts(out@) =~= before.push(xv));
        }
        i += 1;
    }
    assert(input.take(v@.len() as int) =~= input);
    out
}

/// The suggestions for `partial` among `names`, matched in lower case: at
/// most `limit` of the names that hold it where there is a limit, in order,
/// each once with `dedup`.
pub fn suggestions(names: &Vec<String>, partial: &str, limit: Option<usize>, dedup: bool) -> (r: Vec<String>)
    ensures
        spec_texts(r@) == spec_suggestions(spec_texts(names@), spec_lower_match(partial@), limit, dedup),
{
    let lower_partial = to_lowercase(partial);
    let ghost keep = spec_lower_match(partial@);
    let ghost input = spec_texts(names@);
    let mut picked: Vec<String> = Vec::new();
    let mut i: usize = 0;
    proof {
        reveal(Seq::filter);
        assert(input.take(0) =~= Seq::<Seq<char>>::empty());
        assert(input.take(0).filter(keep) =~= Seq::<Seq<char>>::empty());
    }
    while i < names.len()
        invariant
            input == spec_texts(names@),
            keep == spec_lower_match(partial@),
            lower_partial@ == spec_to_lowercase(partial@),
            i <= names@.len(),
            spec_texts(picked@) == input.take(i as int).filter(keep),
        decreases names@.len() - i,
    {
        proof {
            assert(input.take(i as int + 1) =~= input.take(i as int).push(input[i as int]));
            input.take(i as int).lemma_filter_push(input[i as int], keep);
        }
        let lower = to_lowercase(names[i].as_str());
        if contains(lower.as_str(), lower_partial.as_str()) {
            let ghost before = spec_texts(picked@);
            let x = names[i].clone();
            picked.push(x);
            assert(spec_texts(picked@) =~= before.push(input[i as int]));
        }
        i += 1;
    }
    proof {
        assert(input.take(names@.len() as int) =~= input);
    }
    let ghost m = input.filter(keep);
    match limit {
        Some(l) => {
            if l < picked.len() {
                picked.truncate(l);
                assert(spec_texts(picked@) =~= m.take(l as int));
            }
        },
        None => {},
    }
    let sorted = sort_names(picked);
    if dedup { dedup_names(sorted) } else { sorted }
}

/// The names that hold `partial` up to ASCII case, in order.
pub fn ascii_suggestions(names: &Vec<String>, partial: &str) -> (r: Vec<String>)
    ensures
        spec_texts(r@) == spec_suggestions(spec_texts(names@), spec_ascii_match(partial@), None, false),
{
    let ghost keep = spec_ascii_match(partial@);
    let ghost input = spec_texts(names@);
    let mut picked: Vec<String> = Vec::new();
    let mut i: usize = 0;
    proof {
        reveal(Seq::filter);
        assert(input.take(0) =~= Seq::<Seq<char>>::empty());
        assert(input.take(0).filter(keep) =~= Seq::<Seq<char>>::empty());
    }
    while i < names.len()
        invariant
            input == spec_texts(names@),
            keep == spec_ascii_match(partial@),
            i <= names@.len(),
            spec_texts(picked@) == input.take(i as int).filter(keep),
        decreases names@.len() - i,
    {
        proof {
            assert(input.take(i as int + 1) =~= input.take(i as int).push(input[i as int]));
            input.take(i as int).lemma_filter_push(input[i as int], keep);
        }
        if contains_ignore_case(names[i].as_str(), partial) {
            let ghost before = spec_texts(picked@);
            let x = names[i].clone();
            picked.push(x);
            assert(spec_texts(picked@) =~= before.push(input[i as int]));
        }
        i += 1;
    }
    proof {
        assert(input.take(names@.len() as int) =~= input);
    }
    sort_names(picked)
}

/// The order of names is a strict weak order.
pub proof fn lemma_name_order_weak()
    ensures
        spec_weak_order(spec_name_lt()),
{
    let lt = spec_name_lt();
    assert forall|a: Seq<char>, b: Seq<char>| #[trigger] lt(a, b) implies !lt(b, a) by {
        lemma_str_order_antisymmetric(a, b);
    }
    assert forall|a: Seq<char>, b: Seq<char>, c: Seq<char>| !#[trigger] lt(a, b) && !#[trigger] lt(b, c) implies !lt(a, c) by {
        lemma_str_order_antisymmetric(a, b);
        lemma_str_order_antisymmetric(b, c);
        lemma_str_order_antisymmetric(a, c);
        lemma_str_order_transitive(c, b, a);
    }
}

/// Keeping equal neighbours once keeps only elements of the sequence, and
/// keeps a sorted sequence sorted.
pub proof fn lemma_dedup(s: Seq<Seq<char>>, lt: spec_fn(Seq<char>, Seq<char>) -> bool)
    ensures
        forall|i: int| 0 <= i < spec_dedup(s).len() ==> s.contains(#[trigger] spec_dedup(s)[i]),
        spec_sorted_by(s, lt) ==> spec_sorted_by(spec_dedup(s), lt),
    decreases s.len(),
{
    if s.len() > 1 {
        let d = s.drop_last();
        lemma_dedup(d, lt);
        let r = spec_dedup(s);
        let r1 = spec_dedup(d);
        assert forall|i: int| 0 <= i < r.len() implies s.contains(#[trigger] r[i]) by {
            if i < r1.len() {
                assert(r[i] == r1[i]);
                let k = choose|k: int| 0 <= k < d.len() && d[k] == r1[i];
                assert(s[k] == r[i]);
            } else {
                assert(r[i] == s[s.len() - 1]);
            }
        }
        if spec_sorted_by(s, lt) {
            assert forall|i: int, j: int| 0 <= i < j < d.len() implies !lt(#[trigger] d[j], #[trigger] d[i]) by {
                assert(d[i] == s[i] && d[j] == s[j]);
            }
            assert forall|i: int, j: int| 0 <= i < j < r.len() implies !lt(#[trigger] r[j], #[trigger] r[i]) by {
                if j < r1.len() {
                    assert(r[i] == r1[i] && r[j] == r1[j]);
                } else {
                    assert(r[j] == s[s.len() - 1]);
                    assert(r[i] == r1[i]);
                    let k = choose|k: int| 0 <= k < d.len() && d[k] == r1[i];
                    assert(s[k] == r[i]);
                }
            }
        }
    }
}

/// Every suggestion is a name that holds what was typed, and the
/// suggestions come in the order of names.
pub proof fn lemma_suggestions_hold_and_ordered(names: Seq<Seq<char>>, keep: spec_fn(Seq<char>) -> bool, limit: Option<usize>, dedup: bool)
    ensures
        forall|i: int| 0 <= i < spec_suggestions(names, keep, limit, dedup).len()
            ==> names.contains(#[trigger] spec_suggestions(names, keep, limit, dedup)[i])
                && keep(spec_suggestions(names, keep, limit, dedup)[i]),
        spec_sorted_by(spec_suggestions(names, keep, limit, dedup), spec_name_lt()),
{
    broadcast use vstd::seq_lib::group_filter_ensures;
    let lt = spec_name_lt();
    let m = names.filter(keep);
    let m2 = match limit {
        Some(l) => if l < m.len() { m.take(l as int) } else { m },
        None => m,
    };
    let sorted = spec_sort_by(m2, lt);
    let r = spec_suggestions(names, keep, limit, dedup);
    lemma_sort_by_elems(m2, lt);
    lemma_name_order_weak();
    lemma_sort_by_sorted(m2, lt);
    lemma_dedup(sorted, lt);
    assert forall|i: int| 0 <= i < r.len() implies names.contains(#[trigger] r[i]) && keep(r[i]) by {
        let e = r[i];
        assert(sorted.contains(e)) by {
            if dedup {
                assert(r == spec_dedup(sorted));
            } else {
                assert(sorted[i] == e);
            }
        }
        let k = choose|k: int| 0 <= k < sorted.len() && sorted[k] == e;
        assert(m2.contains(e));
        let k2 = choose|k2: int| 0 <= k2 < m2.len() && m2[k2] == e;
        assert(m[k2] == e);
        assert(keep(m[k2]));
        names.lemma_filter_contains_rev(keep, e);
    }
}

proof fn lemma_str_order_zero(a: Seq<char>, b: Seq<char>)
    requires
        spec_str_order(a, b) == 0,
    ensures
        a == b,
    decreases a.len(),
{
    if a.len() > 0 && b.len() > 0 {
        lemma_str_order_zero(a.drop_first(), b.drop_first());
        assert(a =~= seq![a[0]] + a.drop_first());
        assert(b =~= seq![b[0]] + b.drop_first());
    }
}

proof fn lemma_dedup_adjacent(s: Seq<Seq<char>>)
    ensures
        forall|k: int| 0 <= k < spec_dedup(s).len() - 1 ==> #[trigger] spec_dedup(s)[k] != spec_dedup(s)[k + 1],
        s.len() > 0 ==> spec_dedup(s).len() > 0 && spec_dedup(s).last() == s.last(),
    decreases s.len(),
{
    if s.len() > 1 {
        let d = s.drop_last();
        lemma_dedup_adjacent(d);
        assert(d.last() == s[s.len() - 2]);
    }
}

/// With `dedup`, no name is suggested twice.
pub proof fn lemma_suggestions_once(names: Seq<Seq<char>>, keep: spec_fn(Seq<char>) -> bool, limit: Option<usize>)
    ensures
        forall|i: int, j: int| 0 <= i < j < spec_suggestions(names, keep, limit, true).len()
            ==> #[trigger] spec_suggestions(names, keep, limit, true)[i] != #[trigger] spec_suggestions(names, keep, limit, true)[j],
{
    let r = spec_suggestions(names, keep, limit, true);
    let lt = spec_name_lt();
    lemma_suggestions_hold_and_ordered(names, keep, limit, true);
    let m = names.filter(keep);
    let m2 = match limit {
        Some(l) => if l < m.len() { m.take(l as int) } else { m },
        None => m,
    };
    lemma_dedup_adjacent(spec_sort_by(m2, lt));
    assert forall|i: int, j: int| 0 <= i < j < r.len() implies #[trigger] r[i] != #[trigger] r[j] by {
        if r[i] == r[j] {
            assert(r[i] != r[i + 1]);
            if i + 1 < j {
                assert(!lt(r[i + 1], r[i]));
                assert(!lt(r[j], r[i + 1]));
                lemma_str_order_antisymmetric(r[i], r[i + 1]);
                lemma_str_order_zero(r[i], r[i + 1]);
            }
        }
    }
}

} // verus!
