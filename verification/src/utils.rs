//! Splitting text before separators, and capitalising.
use vstd::prelude::*;

verus! {

/// The pieces of `s` from `start` on, scanning from `i`: a new piece starts
/// at each separator; no piece is empty except a final one.
pub open spec fn spec_split_from(s: Seq<char>, pattern: Seq<char>, start: int, i: int) -> Seq<Seq<char>>
    decreases s.len() - i,
{
    if i >= s.len() {
        seq![s.subrange(start, s.len() as int)]
    } else if pattern.contains(s[i]) {
        if start != i {
            seq![s.subrange(start, i)] + spec_split_from(s, pattern, i, i + 1)
        } else {
            spec_split_from(s, pattern, i, i + 1)
        }
    } else {
        spec_split_from(s, pattern, start, i + 1)
    }
}

/// `s` cut before each character of `pattern`, each separator kept at the
/// start of the piece that follows it.
pub open spec fn spec_split_inclusive(s: Seq<char>, pattern: Seq<char>) -> Seq<Seq<char>> {
    spec_split_from(s, pattern, 0, 0)
}

fn in_pattern(pattern: &[char], c: char) -> (r: bool)
    ensures
        r == pattern@.contains(c),
{
    let mut j: usize = 0;
    while j < pattern.len()
        invariant
            j <= pattern@.len(),
            forall|k: int| 0 <= k < j ==> pattern@[k] != c,
        decreases pattern@.len() - j,
    {
        if pattern[j] == c {
            assert(pattern@[j as int] == c);
            return true;
        }
        j += 1;
    }
    false
}

/// Cuts `input` before each character of `pattern`, keeping the separator
/// at the start of the piece that follows it.
pub fn split_inclusive<'a>(input: &'a str, pattern: &[char]) -> (r: Vec<&'a str>)
    ensures
        r@.map_values(|p: &str| p@) == spec_split_inclusive(input@, pattern@),
{
    let n = input.unicode_len();
    let mut slices: Vec<&'a str> = Vec::new();
    let mut start: usize = 0;
    let mut i: usize = 0;
    while i < n
        invariant
            n == input@.len(),
            start <= i <= n,
            spec_split_inclusive(input@, pattern@)
                == slices@.map_values(|p: &str| p@) + spec_split_from(input@, pattern@, start as int, i as int),
        decreases n - i,
    {
        let c = input.get_char(i);
        if in_pattern(pattern, c) {
            if start != i {
                let piece = input.substring_char(start, i);
                let ghost before = slices@.map_values(|p: &str| p@);
                slices.push(piece);
                assert(slices@.map_values(|p: &str| p@) =~= before.push(piece@));
                assert(before.push(piece@) + spec_split_from(input@, pattern@, i as int, i as int + 1)
                    =~= before + (seq![input@.subrange(start as int, i as int)]
                        + spec_split_from(input@, pattern@, i as int, i as int + 1)));
            }
            start = i;
        }
        i += 1;
    }
    let piece = input.substring_char(start, n);
    let ghost before = slices@.map_values(|p: &str| p@);
    slices.push(piece);
    assert(slices@.map_values(|p: &str| p@) =~= before.push(piece@));
    assert(before.push(piece@) =~= before + seq![input@.subrange(start as int, n as int)]);
    slices
}

/// The first position of `s` whose element satisfies `p`.
pub open spec fn spec_first_index<T>(s: Seq<T>, p: spec_fn(T) -> bool) -> Option<int>
    decreases s.len(),
{
    if s.len() == 0 {
        None
    } else {
        match spec_first_index(s.drop_last(), p) {
            Some(i) => Some(i),
            None => if p(s.last()) { Some(s.len() - 1) } else { None },
        }
    }
}

/// What the first position is: it satisfies `p` and none before it does;
/// there is none when no element satisfies `p`.
pub proof fn lemma_first_index<T>(s: Seq<T>, p: spec_fn(T) -> bool)
    ensures
        spec_first_index(s, p) matches Some(i) ==> {
            &&& 0 <= i < s.len()
            &&& p(s[i])
            &&& forall|j: int| 0 <= j < i ==> !p(#[trigger] s[j])
        },
        spec_first_index(s, p) is None <==> forall|j: int| 0 <= j < s.len() ==> !p(#[trigger] s[j]),
    decreases s.len(),
{
    if s.len() > 0 {
        let d = s.drop_last();
        lemma_first_index(d, p);
        assert forall|j: int| 0 <= j < d.len() implies d[j] == s[j] by {}
        if spec_first_index(d, p) is None && !p(s.last()) {
            assert forall|j: int| 0 <= j < s.len() implies !p(#[trigger] s[j]) by {
                if j < d.len() {
                    assert(d[j] == s[j]);
                }
            }
        }
    }
}

/// Extending a prefix with an element that fails `p` keeps the first
/// position that `p` gives; one that satisfies `p` gives its position if
/// there was none.
pub proof fn lemma_first_index_step<T>(s: Seq<T>, p: spec_fn(T) -> bool, i: int)
    requires
        0 <= i < s.len(),
    ensures
        spec_first_index(s.take(i + 1), p) == match spec_first_index(s.take(i), p) {
            Some(k) => Some(k),
            None => if p(s[i]) { Some(i) } else { None },
        },
{
    assert(s.take(i + 1).drop_last() =~= s.take(i));
}

/// The first position in the whole sequence is the first in its longest prefix.
pub proof fn lemma_first_index_full<T>(s: Seq<T>, p: spec_fn(T) -> bool)
    ensures
        spec_first_index(s.take(s.len() as int), p) == spec_first_index(s, p),
{
    assert(s.take(s.len() as int) =~= s);
}

/// A position whose element satisfies `p`, with none before it that does,
/// is the first position.
pub proof fn lemma_first_index_at<T>(s: Seq<T>, p: spec_fn(T) -> bool, i: int)
    requires
        0 <= i < s.len(),
        p(s[i]),
        forall|j: int| 0 <= j < i ==> !p(#[trigger] s[j]),
    ensures
        spec_first_index(s, p) == Some(i),
{
    lemma_first_index(s, p);
    match spec_first_index(s, p) {
        Some(k) => {
            if k < i {
                assert(!p(s[k]));
            }
            if i < k {
                assert(!p(s[i]));
            }
        },
        None => {
            assert(!p(s[i]));
        },
    }
}

/// `s`, ordered with `x` put after every element that it does not come
/// before (`lt` is "comes strictly before").
pub open spec fn spec_insert_sorted<A>(s: Seq<A>, x: A, lt: spec_fn(A, A) -> bool) -> Seq<A>
    decreases s.len(),
{
    if s.len() == 0 {
        seq![x]
    } else if lt(x, s.last()) {
        spec_insert_sorted(s.drop_last(), x, lt).push(s.last())
    } else {
        s.push(x)
    }
}

/// `s` in order by `lt`, elements that neither precedes keeping their
/// order: what a stable sort gives.
pub open spec fn spec_sort_by<A>(s: Seq<A>, lt: spec_fn(A, A) -> bool) -> Seq<A>
    decreases s.len(),
{
    if s.len() == 0 {
        s
    } else {
        spec_insert_sorted(spec_sort_by(s.drop_last(), lt), s.last(), lt)
    }
}

/// Inserting before the elements that come after `x`, and after one that
/// does not, is the ordered insertion.
pub proof fn lemma_insert_sorted_at<A>(s: Seq<A>, x: A, lt: spec_fn(A, A) -> bool, p: int)
    requires
        0 <= p <= s.len(),
        forall|k: int| p <= k < s.len() ==> lt(x, #[trigger] s[k]),
        p == 0 || !lt(x, s[p - 1]),
    ensures
        spec_insert_sorted(s, x, lt) == s.insert(p, x),
    decreases s.len(),
{
    if s.len() == 0 {
        assert(s.insert(p, x) =~= seq![x]);
    } else if p == s.len() {
        assert(s.insert(p, x) =~= s.push(x));
    } else {
        let d = s.drop_last();
        assert(lt(x, s[s.len() - 1]));
        assert forall|k: int| p <= k < d.len() implies lt(x, #[trigger] d[k]) by {
            assert(d[k] == s[k]);
        }
        lemma_insert_sorted_at(d, x, lt, p);
        assert(d.insert(p, x).push(s.last()) =~= s.insert(p, x));
    }
}

/// Sorting a longer prefix inserts its last element into the sorted shorter one.
pub proof fn lemma_sort_step<A>(s: Seq<A>, lt: spec_fn(A, A) -> bool, i: int)
    requires
        0 <= i < s.len(),
    ensures
        spec_sort_by(s.take(i + 1), lt) == spec_insert_sorted(spec_sort_by(s.take(i), lt), s[i], lt),
{
    assert(s.take(i + 1).drop_last() =~= s.take(i));
    assert(s.take(i + 1).last() == s[i]);
}

/// No element comes strictly before an earlier one.
pub open spec fn spec_sorted_by<A>(s: Seq<A>, lt: spec_fn(A, A) -> bool) -> bool {
    forall|i: int, j: int| 0 <= i < j < s.len() ==> !lt(#[trigger] s[j], #[trigger] s[i])
}

/// `lt` is a strict weak order: asymmetric, and "not before" chains.
pub open spec fn spec_weak_order<A>(lt: spec_fn(A, A) -> bool) -> bool {
    &&& forall|a: A, b: A| #[trigger] lt(a, b) ==> !lt(b, a)
    &&& forall|a: A, b: A, c: A| !#[trigger] lt(a, b) && !#[trigger] lt(b, c) ==> !lt(a, c)
}

/// The ordered insertion into a sorted sequence is sorted.
pub proof fn lemma_insert_sorted_sorted<A>(s: Seq<A>, x: A, lt: spec_fn(A, A) -> bool)
    requires
        spec_weak_order(lt),
        spec_sorted_by(s, lt),
    ensures
        spec_sorted_by(spec_insert_sorted(s, x, lt), lt),
    decreases s.len(),
{
    let r = spec_insert_sorted(s, x, lt);
    if s.len() == 0 {
    } else if lt(x, s.last()) {
        let d = s.drop_last();
        assert forall|i: int, j: int| 0 <= i < j < d.len() implies !lt(#[trigger] d[j], #[trigger] d[i]) by {
            assert(d[i] == s[i] && d[j] == s[j]);
        }
        lemma_insert_sorted_sorted(d, x, lt);
        lemma_insert_sorted_elems(d, x, lt);
        let r1 = spec_insert_sorted(d, x, lt);
        assert(r == r1.push(s.last()));
        assert forall|i: int, j: int| 0 <= i < j < r.len() implies !lt(#[trigger] r[j], #[trigger] r[i]) by {
            if j < r1.len() {
                assert(r[i] == r1[i] && r[j] == r1[j]);
            } else {
                assert(r[j] == s.last());
                let e = r1[i];
                assert(r[i] == e);
                if e == x {
                    assert(!lt(s.last(), x));
                } else {
                    let k = choose|k: int| 0 <= k < d.len() && d[k] == e;
                    assert(s[k] == e);
                    assert(!lt(s[s.len() - 1], s[k]));
                }
            }
        }
    } else {
        assert(r == s.push(x));
        assert forall|i: int, j: int| 0 <= i < j < r.len() implies !lt(#[trigger] r[j], #[trigger] r[i]) by {
            if j < s.len() {
                assert(r[i] == s[i] && r[j] == s[j]);
            } else {
                assert(r[j] == x && r[i] == s[i]);
                if i < s.len() - 1 {
                    assert(!lt(s[s.len() - 1], s[i]));
                    assert(!lt(x, s[s.len() - 1]));
                }
            }
        }
    }
}

/// A stable sort by a strict weak order gives a sorted sequence.
pub proof fn lemma_sort_by_sorted<A>(s: Seq<A>, lt: spec_fn(A, A) -> bool)
    requires
        spec_weak_order(lt),
    ensures
        spec_sorted_by(spec_sort_by(s, lt), lt),
    decreases s.len(),
{
    if s.len() > 0 {
        lemma_sort_by_sorted(s.drop_last(), lt);
        lemma_insert_sorted_sorted(spec_sort_by(s.drop_last(), lt), s.last(), lt);
    }
}

/// What `char::to_uppercase` yields for a character: Unicode's upper case
/// mapping, one or more characters.
pub uninterp spec fn spec_char_to_uppercase(c: char) -> Seq<char>;

/// `char::to_uppercase`, collected into a string. The mapping is Unicode's
/// and is named, not written out; its documentation promises one or more
/// characters.
#[verifier::external_body]
fn char_to_uppercase(c: char) -> (r: String)
    ensures
        r@ == spec_char_to_uppercase(c),
        r@.len() >= 1,
{
    c.to_uppercase().collect::<String>()
}

/// `s` with its first character in upper case.
pub open spec fn spec_uppercase_first_letter(s: Seq<char>) -> Seq<char> {
    if s.len() == 0 {
        Seq::<char>::empty()
    } else {
        spec_char_to_uppercase(s[0]) + s.drop_first()
    }
}

/// `s` with its first character in upper case.
pub fn to_uppercase_first_letter(s: &str) -> (r: String)
    ensures
        r@ == spec_uppercase_first_letter(s@),
{
    let n = s.unicode_len();
    if n == 0 {
        return String::new();
    }
    let mut r = char_to_uppercase(s.get_char(0));
    r.append(s.substring_char(1, n));
    assert(s@.subrange(1, n as int) =~= s@.drop_first());
    r
}

/// The ordered insertion holds the element and those it was inserted into.
pub proof fn lemma_insert_sorted_elems<A>(s: Seq<A>, x: A, lt: spec_fn(A, A) -> bool)
    ensures
        spec_insert_sorted(s, x, lt).len() == s.len() + 1,
        forall|i: int| 0 <= i < s.len() + 1 ==> {
            let e = #[trigger] spec_insert_sorted(s, x, lt)[i];
            e == x || s.contains(e)
        },
    decreases s.len(),
{
    if s.len() > 0 && lt(x, s.last()) {
        let d = s.drop_last();
        lemma_insert_sorted_elems(d, x, lt);
        assert forall|i: int| 0 <= i < s.len() + 1 implies {
            let e = #[trigger] spec_insert_sorted(s, x, lt)[i];
            e == x || s.contains(e)
        } by {
            let e = spec_insert_sorted(s, x, lt)[i];
            if i < s.len() {
                let e2 = spec_insert_sorted(d, x, lt)[i];
                assert(e == e2);
                if e2 != x {
                    let j = choose|j: int| 0 <= j < d.len() && d[j] == e2;
                    assert(s[j] == e2);
                }
            } else {
                assert(e == s.last());
                assert(s[s.len() - 1] == e);
            }
        }
    } else if s.len() > 0 {
        assert forall|i: int| 0 <= i < s.len() + 1 implies {
            let e = #[trigger] spec_insert_sorted(s, x, lt)[i];
            e == x || s.contains(e)
        } by {
            if i < s.len() {
                assert(spec_insert_sorted(s, x, lt)[i] == s[i]);
            }
        }
    }
}

/// Sorting keeps the length and brings in no element from elsewhere.
pub proof fn lemma_sort_by_elems<A>(s: Seq<A>, lt: spec_fn(A, A) -> bool)
    ensures
        spec_sort_by(s, lt).len() == s.len(),
        forall|i: int| 0 <= i < s.len() ==> s.contains(#[trigger] spec_sort_by(s, lt)[i]),
    decreases s.len(),
{
    if s.len() > 0 {
        let d = s.drop_last();
        lemma_sort_by_elems(d, lt);
        let t = spec_sort_by(d, lt);
        lemma_insert_sorted_elems(t, s.last(), lt);
        assert forall|i: int| 0 <= i < s.len() implies s.contains(#[trigger] spec_sort_by(s, lt)[i]) by {
            let e = spec_insert_sorted(t, s.last(), lt)[i];
            if e == s.last() {
                assert(s[s.len() - 1] == e);
            } else {
                let j = choose|j: int| 0 <= j < t.len() && t[j] == e;
                assert(d.contains(t[j]));
                let k = choose|k: int| 0 <= k < d.len() && d[k] == t[j];
                assert(s[k] == e);
            }
        }
    }
}

} // verus!
