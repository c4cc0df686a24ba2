//! Text helpers: decimal rendering of integers and ASCII case-insensitive
//! comparison of character sequences.
use crate::roller::query::{
    digits_end, digits_value_capped, is_sign, lemma_digits_end_bounds, lemma_digits_value_nonneg, spec_digits_end,
    spec_digits_value,
    spec_is_sign,
};
use vstd::prelude::*;

verus! {

/// The character of a decimal digit.
pub open spec fn spec_digit_char(d: int) -> char {
    if d == 0 { '0' }
    else if d == 1 { '1' }
    else if d == 2 { '2' }
    else if d == 3 { '3' }
    else if d == 4 { '4' }
    else if d == 5 { '5' }
    else if d == 6 { '6' }
    else if d == 7 { '7' }
    else if d == 8 { '8' }
    else { '9' }
}

/// Decimal digits of a natural number, most significant first, no leading zeros.
pub open spec fn spec_nat_str(n: nat) -> Seq<char>
    decreases n,
{
    if n < 10 {
        seq![spec_digit_char(n as int)]
    } else {
        spec_nat_str(n / 10).push(spec_digit_char((n % 10) as int))
    }
}

/// Decimal rendering of an integer, with a leading `-` when negative (`{}`).
pub open spec fn spec_int_str(n: int) -> Seq<char> {
    if n < 0 {
        seq!['-'] + spec_nat_str((-n) as nat)
    } else {
        spec_nat_str(n as nat)
    }
}

/// Decimal rendering of an integer that always carries its sign (`{:+}`).
pub open spec fn spec_signed_str(n: int) -> Seq<char> {
    if n < 0 {
        seq!['-'] + spec_nat_str((-n) as nat)
    } else {
        seq!['+'] + spec_nat_str(n as nat)
    }
}

fn digit_str(d: u64) -> (r: &'static str)
    requires
        d < 10,
    ensures
        r@ == seq![spec_digit_char(d as int)],
{
    proof {
        reveal_strlit("0");
        reveal_strlit("1");
        reveal_strlit("2");
        reveal_strlit("3");
        reveal_strlit("4");
        reveal_strlit("5");
        reveal_strlit("6");
        reveal_strlit("7");
        reveal_strlit("8");
        reveal_strlit("9");
    }
    match d {
        0 => "0",
        1 => "1",
        2 => "2",
        3 => "3",
        4 => "4",
        5 => "5",
        6 => "6",
        7 => "7",
        8 => "8",
        _ => "9",
    }
}

/// Appends the decimal digits of `n`.
pub fn push_nat(s: &mut String, n: u64)
    ensures
        final(s)@ == old(s)@ + spec_nat_str(n as nat),
    decreases n,
{
    if n >= 10 {
        push_nat(s, n / 10);
        s.append(digit_str(n % 10));
        assert(old(s)@ + spec_nat_str(n as nat) =~= old(s)@ + spec_nat_str((n / 10) as nat) + seq![spec_digit_char((n % 10) as int)]);
    } else {
        s.append(digit_str(n));
    }
}

/// Appends `n` as `{}` renders it.
pub fn push_int(s: &mut String, n: i64)
    ensures
        final(s)@ == old(s)@ + spec_int_str(n as int),
{
    if n < 0 {
        s.append("-");
        proof { reveal_strlit("-"); }
        let m: u64 = if n == i64::MIN { 9223372036854775808u64 } else { (-n) as u64 };
        push_nat(s, m);
        assert(old(s)@ + spec_int_str(n as int) =~= old(s)@ + seq!['-'] + spec_nat_str(m as nat));
    } else {
        push_nat(s, n as u64);
    }
}

/// Appends `n` as `{:+}` renders it.
pub fn push_signed(s: &mut String, n: i64)
    ensures
        final(s)@ == old(s)@ + spec_signed_str(n as int),
{
    if n < 0 {
        push_int(s, n);
    } else {
        s.append("+");
        proof { reveal_strlit("+"); }
        push_nat(s, n as u64);
        assert(old(s)@ + spec_signed_str(n as int) =~= old(s)@ + seq!['+'] + spec_nat_str(n as nat));
    }
}

/// `{}` of an integer as a new string.
pub fn int_to_string(n: i64) -> (r: String)
    ensures
        r@ == spec_int_str(n as int),
{
    let mut s = String::new();
    push_int(&mut s, n);
    assert(s@ =~= spec_int_str(n as int));
    s
}

/// Code point of a character after ASCII lowercasing.
pub open spec fn spec_lower_code(c: char) -> u32 {
    if 'A' <= c && c <= 'Z' {
        (c as u32 + 32) as u32
    } else {
        c as u32
    }
}

/// Two character sequences are equal up to ASCII case (`eq_ignore_ascii_case`).
pub open spec fn spec_eq_ignore_case(a: Seq<char>, b: Seq<char>) -> bool {
    &&& a.len() == b.len()
    &&& forall|i: int| 0 <= i < a.len() ==> #[trigger] spec_lower_code(a[i]) == spec_lower_code(b[i])
}

/// `needle` occurs in `hay` at position `k`, up to ASCII case.
pub open spec fn spec_occurs_at(hay: Seq<char>, needle: Seq<char>, k: int) -> bool {
    &&& 0 <= k
    &&& k + needle.len() <= hay.len()
    &&& forall|j: int| 0 <= j < needle.len() ==> #[trigger] spec_lower_code(needle[j]) == spec_lower_code(hay[k + j])
}

/// After ASCII lowercasing both, `hay` contains `needle`.
pub open spec fn spec_contains_ignore_case(hay: Seq<char>, needle: Seq<char>) -> bool {
    exists|k: int| spec_occurs_at(hay, needle, k)
}

fn lower_code(c: char) -> (r: u32)
    ensures
        r == spec_lower_code(c),
{
    if 'A' <= c && c <= 'Z' {
        c as u32 + 32
    } else {
        c as u32
    }
}

/// ASCII case-insensitive equality of two strings.
pub fn eq_ignore_case(a: &str, b: &str) -> (r: bool)
    ensures
        r == spec_eq_ignore_case(a@, b@),
{
    let n = a.unicode_len();
    let m = b.unicode_len();
    if n != m {
        return false;
    }
    let mut i: usize = 0;
    while i < n
        invariant
            n == a@.len(),
            m == b@.len(),
            n == m,
            i <= n,
            forall|j: int| 0 <= j < i ==> #[trigger] spec_lower_code(a@[j]) == spec_lower_code(b@[j]),
        decreases n - i,
    {
        if lower_code(a.get_char(i)) != lower_code(b.get_char(i)) {
            return false;
        }
        i += 1;
    }
    true
}

/// Whether `needle` occurs in `hay`, ignoring ASCII case.
pub fn contains_ignore_case(hay: &str, needle: &str) -> (r: bool)
    ensures
        r == spec_contains_ignore_case(hay@, needle@),
{
    let n = hay.unicode_len();
    let m = needle.unicode_len();
    if m > n {
        assert forall|k: int| !spec_occurs_at(hay@, needle@, k) by {}
        return false;
    }
    let mut k: usize = 0;
    while k <= n - m
        invariant
            n == hay@.len(),
            m == needle@.len(),
            m <= n,
            k <= n - m + 1,
            forall|q: int| 0 <= q < k ==> !spec_occurs_at(hay@, needle@, q),
        decreases n - m + 1 - k,
    {
        let mut j: usize = 0;
        let mut ok = true;
        while j < m
            invariant
                n == hay@.len(),
                m == needle@.len(),
                k + m <= n,
                j <= m,
                ok ==> forall|t: int| 0 <= t < j ==> #[trigger] spec_lower_code(needle@[t]) == spec_lower_code(hay@[k + t]),
                !ok ==> !spec_occurs_at(hay@, needle@, k as int),
            decreases m - j,
        {
            if ok && lower_code(needle.get_char(j)) != lower_code(hay.get_char(k + j)) {
                ok = false;
            }
            j += 1;
        }
        if ok {
            assert(spec_occurs_at(hay@, needle@, k as int));
            return true;
        }
        k += 1;
    }
    assert forall|q: int| !spec_occurs_at(hay@, needle@, q) by {
        if 0 <= q < k {
        }
    }
    false
}

/// `char::is_whitespace`: the characters with the Unicode `White_Space` property.
pub open spec fn spec_is_whitespace(c: char) -> bool {
    ||| ('\t' <= c && c <= '\r')
    ||| c == ' '
    ||| c == '\u{85}'
    ||| c == '\u{a0}'
    ||| c == '\u{1680}'
    ||| ('\u{2000}' <= c && c <= '\u{200a}')
    ||| c == '\u{2028}'
    ||| c == '\u{2029}'
    ||| c == '\u{202f}'
    ||| c == '\u{205f}'
    ||| c == '\u{3000}'
}

fn is_whitespace(c: char) -> (r: bool)
    ensures
        r == spec_is_whitespace(c),
{
    ('\t' <= c && c <= '\r') || c == ' ' || c == '\u{85}' || c == '\u{a0}' || c == '\u{1680}'
        || ('\u{2000}' <= c && c <= '\u{200a}') || c == '\u{2028}' || c == '\u{2029}' || c == '\u{202f}'
        || c == '\u{205f}' || c == '\u{3000}'
}

/// Reading `s` from the left: the words ended so far, and the word under way.
pub open spec fn spec_words_acc(s: Seq<char>) -> (Seq<Seq<char>>, Seq<char>)
    decreases s.len(),
{
    if s.len() == 0 {
        (Seq::<Seq<char>>::empty(), Seq::<char>::empty())
    } else {
        let (words, cur) = spec_words_acc(s.drop_last());
        if spec_is_whitespace(s.last()) {
            (if cur.len() > 0 { words.push(cur) } else { words }, Seq::<char>::empty())
        } else {
            (words, cur.push(s.last()))
        }
    }
}

/// The words of `s`: its longest runs of characters that are not
/// whitespace, in order (`str::split_whitespace`).
pub open spec fn spec_words(s: Seq<char>) -> Seq<Seq<char>> {
    let (words, cur) = spec_words_acc(s);
    if cur.len() > 0 { words.push(cur) } else { words }
}

/// The words of a text.
pub fn split_whitespace(s: &str) -> (r: Vec<String>)
    ensures
        r@.map_values(|w: String| w@) == spec_words(s@),
        forall|k: int| 0 <= k < r@.len() ==> #[trigger] r@[k]@.len() <= s@.len(),
{
    let n = s.unicode_len();
    let mut words: Vec<String> = Vec::new();
    let mut cur = String::new();
    let mut i: usize = 0;
    proof {
        assert(s@.take(0) =~= Seq::<char>::empty());
        assert(words@.map_values(|w: String| w@) =~= Seq::<Seq<char>>::empty());
    }
    while i < n
        invariant
            n == s@.len(),
            i <= n,
            (words@.map_values(|w: String| w@), cur@) == spec_words_acc(s@.take(i as int)),
            cur@.len() <= i,
            forall|k: int| 0 <= k < words@.len() ==> #[trigger] words@[k]@.len() <= i,
        decreases n - i,
    {
        let c = s.get_char(i);
        proof {
            assert(s@.take(i as int + 1).drop_last() =~= s@.take(i as int));
            assert(s@.take(i as int + 1).last() == c);
        }
        let ghost before = words@.map_values(|w: String| w@);
        if is_whitespace(c) {
            if cur.unicode_len() > 0 {
                let ghost cv = cur@;
                words.push(cur);
                assert(words@.map_values(|w: String| w@) =~= before.push(cv));
            }
            cur = String::new();
        } else {
            let ghost cv = cur@;
            let piece = s.substring_char(i, i + 1);
            assert(piece@ =~= seq![c]);
            cur.append(piece);
            assert(cur@ =~= cv.push(c));
        }
        i += 1;
    }
    proof {
        assert(s@.take(n as int) =~= s@);
    }
    if cur.unicode_len() > 0 {
        let ghost before = words@.map_values(|w: String| w@);
        let ghost cv = cur@;
        words.push(cur);
        assert(words@.map_values(|w: String| w@) =~= before.push(cv));
    }
    words
}

/// Reading `s` from the left: the pieces closed by `sep` so far, and the
/// piece under way.
pub open spec fn spec_split_acc(s: Seq<char>, sep: char) -> (Seq<Seq<char>>, Seq<char>)
    decreases s.len(),
{
    if s.len() == 0 {
        (Seq::<Seq<char>>::empty(), Seq::<char>::empty())
    } else {
        let (parts, cur) = spec_split_acc(s.drop_last(), sep);
        if s.last() == sep {
            (parts.push(cur), Seq::<char>::empty())
        } else {
            (parts, cur.push(s.last()))
        }
    }
}

/// The pieces of `s` between the occurrences of `sep`, empty ones included
/// (`str::split` with a `char` pattern): one more than there are `sep`s.
pub open spec fn spec_split(s: Seq<char>, sep: char) -> Seq<Seq<char>> {
    let (parts, cur) = spec_split_acc(s, sep);
    parts.push(cur)
}

/// `s.split(sep)`, each piece as a `String`.
pub fn split_char(s: &str, sep: char) -> (r: Vec<String>)
    ensures
        r@.map_values(|p: String| p@) == spec_split(s@, sep),
{
    let n = s.unicode_len();
    let mut parts: Vec<String> = Vec::new();
    let mut cur = String::new();
    let mut i: usize = 0;
    proof {
        assert(s@.take(0) =~= Seq::<char>::empty());
        assert(parts@.map_values(|p: String| p@) =~= Seq::<Seq<char>>::empty());
    }
    while i < n
        invariant
            n == s@.len(),
            i <= n,
            (parts@.map_values(|p: String| p@), cur@) == spec_split_acc(s@.take(i as int), sep),
        decreases n - i,
    {
        let c = s.get_char(i);
        proof {
            assert(s@.take(i as int + 1).drop_last() =~= s@.take(i as int));
            assert(s@.take(i as int + 1).last() == c);
        }
        let ghost before = parts@.map_values(|p: String| p@);
        if c == sep {
            let ghost cv = cur@;
            parts.push(cur);
            assert(parts@.map_values(|p: String| p@) =~= before.push(cv));
            cur = String::new();
        } else {
            let ghost cv = cur@;
            let piece = s.substring_char(i, i + 1);
            assert(piece@ =~= seq![c]);
            cur.append(piece);
            assert(cur@ =~= cv.push(c));
        }
        i += 1;
    }
    proof {
        assert(s@.take(n as int) =~= s@);
    }
    let ghost before = parts@.map_values(|p: String| p@);
    let ghost cv = cur@;
    parts.push(cur);
    assert(parts@.map_values(|p: String| p@) =~= before.push(cv));
    parts
}

/// Exact equality of two strings.
pub fn str_equal(a: &str, b: &str) -> (r: bool)
    ensures
        r == (a@ == b@),
{
    let n = a.unicode_len();
    let m = b.unicode_len();
    if n != m {
        return false;
    }
    let mut i: usize = 0;
    while i < n
        invariant
            n == a@.len(),
            m == b@.len(),
            n == m,
            i <= n,
            forall|j: int| 0 <= j < i ==> a@[j] == b@[j],
        decreases n - i,
    {
        if a.get_char(i) != b.get_char(i) {
            return false;
        }
        i += 1;
    }
    assert(a@ =~= b@);
    true
}

/// `s` with each `from` replaced by `to` (`str::replace` with a `char` pattern).
pub open spec fn spec_replace(s: Seq<char>, from: char, to: Seq<char>) -> Seq<char>
    decreases s.len(),
{
    if s.len() == 0 {
        Seq::<char>::empty()
    } else {
        spec_replace(s.drop_last(), from, to) + (if s.last() == from { to } else { seq![s.last()] })
    }
}

/// `s.replace(from, to)`.
pub fn replace_char(s: &str, from: char, to: &str) -> (r: String)
    ensures
        r@ == spec_replace(s@, from, to@),
{
    let n = s.unicode_len();
    let mut out = String::new();
    let mut i: usize = 0;
    while i < n
        invariant
            n == s@.len(),
            i <= n,
            out@ == spec_replace(s@.take(i as int), from, to@),
        decreases n - i,
    {
        let c = s.get_char(i);
        if c == from {
            out.append(to);
        } else {
            out.append(s.substring_char(i, i + 1));
        }
        proof {
            let t = s@.take(i as int + 1);
            assert(t.drop_last() =~= s@.take(i as int));
            assert(t.last() == c);
            assert(s@.subrange(i as int, i as int + 1) =~= seq![c]);
        }
        i += 1;
    }
    assert(s@.take(n as int) =~= s@);
    out
}

/// What `str::parse::<i32>` gives: an optional sign, then at least one
/// decimal digit and nothing else, whose value fits an `i32`.
pub open spec fn spec_parse_i32(s: Seq<char>) -> Option<i32> {
    let start: int = if s.len() > 0 && spec_is_sign(s[0]) { 1 } else { 0 };
    if start < s.len() && spec_digits_end(s, start) == s.len() {
        let v = spec_digits_value(s, start, s.len() as int);
        let x = if s[0] == '-' { -v } else { v };
        if i32::MIN <= x <= i32::MAX { Some(x as i32) } else { None }
    } else {
        None
    }
}

/// `s.parse::<i32>().ok()`.
pub fn parse_i32(s: &str) -> (r: Option<i32>)
    ensures
        r == spec_parse_i32(s@),
{
    let n = s.unicode_len();
    let start: usize = if n > 0 && is_sign(s.get_char(0)) { 1 } else { 0 };
    if start >= n {
        return None;
    }
    let e = digits_end(s, start);
    if e != n {
        return None;
    }
    proof {
        lemma_digits_end_bounds(s@, start as int);
        lemma_digits_value_nonneg(s@, start as int, n as int);
    }
    let v = digits_value_capped(s, start, n);
    let neg = s.get_char(0) == '-';
    if neg {
        if v > 0x8000_0000 {
            None
        } else {
            Some((-(v as i64)) as i32)
        }
    } else {
        if v > 0x7FFF_FFFF {
            None
        } else {
            Some(v as i32)
        }
    }
}

/// `{}` of a natural number as a new string.
pub fn nat_to_string(n: u64) -> (r: String)
    ensures
        r@ == spec_int_str(n as int),
{
    let mut s = String::new();
    push_nat(&mut s, n);
    assert(s@ =~= spec_int_str(n as int));
    s
}

} // verus!
