//! Verified text utilities: substring search, trimming, quote stripping,
//! and decimal conversion, with sequence-level specifications.
use vstd::prelude::*;

verus! {

/// The characters that Rust's `char::is_whitespace` accepts: the Unicode
/// `White_Space` set.
pub open spec fn is_space_char(c: char) -> bool {
    c == ' ' || c == '\u{9}' || c == '\u{A}' || c == '\u{B}' || c == '\u{C}' || c == '\u{D}'
        || c == '\u{85}' || c == '\u{A0}' || c == '\u{1680}' || c == '\u{2000}' || c == '\u{2001}'
        || c == '\u{2002}' || c == '\u{2003}' || c == '\u{2004}' || c == '\u{2005}'
        || c == '\u{2006}' || c == '\u{2007}' || c == '\u{2008}' || c == '\u{2009}'
        || c == '\u{200A}' || c == '\u{2028}' || c == '\u{2029}' || c == '\u{202F}'
        || c == '\u{205F}' || c == '\u{3000}'
}

pub fn is_space(c: char) -> (r: bool)
    ensures
        r == is_space_char(c),
{
    c == ' ' || c == '\u{9}' || c == '\u{A}' || c == '\u{B}' || c == '\u{C}' || c == '\u{D}'
        || c == '\u{85}' || c == '\u{A0}' || c == '\u{1680}' || c == '\u{2000}' || c == '\u{2001}'
        || c == '\u{2002}' || c == '\u{2003}' || c == '\u{2004}' || c == '\u{2005}'
        || c == '\u{2006}' || c == '\u{2007}' || c == '\u{2008}' || c == '\u{2009}'
        || c == '\u{200A}' || c == '\u{2028}' || c == '\u{2029}' || c == '\u{202F}'
        || c == '\u{205F}' || c == '\u{3000}'
}

/// `pat` occurs in `s` starting at position `i`.
pub open spec fn matches_at(s: Seq<char>, pat: Seq<char>, i: int) -> bool {
    0 <= i && i + pat.len() <= s.len() && s.subrange(i, i + pat.len() as int) == pat
}

/// Position of the leftmost occurrence of `pat` in `s` at or after `from`,
/// as Rust's `str::find` and the `split` family locate it.
pub open spec fn find_from(s: Seq<char>, pat: Seq<char>, from: int) -> Option<int>
    decreases s.len() + 1 - from,
{
    if from < 0 || from + pat.len() > s.len() {
        None
    } else if matches_at(s, pat, from) {
        Some(from)
    } else {
        find_from(s, pat, from + 1)
    }
}

/// `s` contains `pat` as a contiguous subsequence.
pub open spec fn contains_seq(s: Seq<char>, pat: Seq<char>) -> bool {
    exists|i: int| matches_at(s, pat, i)
}

pub proof fn lemma_find_from_le(s: Seq<char>, pat: Seq<char>, from: int, i: int)
    requires
        find_from(s, pat, from) == Some(i),
    ensures
        from <= i,
        matches_at(s, pat, i),
        forall|j: int| from <= j < i ==> !matches_at(s, pat, j),
    decreases s.len() + 1 - from,
{
    if from < 0 || from + pat.len() > s.len() {
    } else if matches_at(s, pat, from) {
    } else {
        lemma_find_from_le(s, pat, from + 1, i);
    }
}

pub proof fn lemma_find_from_none(s: Seq<char>, pat: Seq<char>, from: int)
    requires
        0 <= from,
        find_from(s, pat, from) is None,
    ensures
        forall|j: int| from <= j ==> !matches_at(s, pat, j),
    decreases s.len() + 1 - from,
{
    if from + pat.len() > s.len() {
    } else {
        lemma_find_from_none(s, pat, from + 1);
    }
}

/// Skipping over positions without a match does not change the search result.
pub proof fn lemma_find_from_advance(s: Seq<char>, pat: Seq<char>, from: int, to: int)
    requires
        0 <= from <= to,
        forall|j: int| from <= j < to ==> !matches_at(s, pat, j),
    ensures
        find_from(s, pat, from) == find_from(s, pat, to),
    decreases to - from,
{
    if from < to {
        if from + pat.len() > s.len() {
            assert(to + pat.len() > s.len());
        } else {
            lemma_find_from_advance(s, pat, from + 1, to);
        }
    }
}

pub proof fn lemma_find_iff_contains(s: Seq<char>, pat: Seq<char>)
    ensures
        find_from(s, pat, 0) is Some <==> contains_seq(s, pat),
{
    match find_from(s, pat, 0) {
        Some(i) => {
            lemma_find_from_le(s, pat, 0, i);
        },
        None => {
            lemma_find_from_none(s, pat, 0);
            assert(forall|j: int| !matches_at(s, pat, j) || j >= 0);
        },
    }
}

/// Compares `pat` against `s` at position `i`.
pub fn matches_pat_at(s: &str, pat: &str, i: usize, n: usize, m: usize) -> (r: bool)
    requires
        n == s@.len(),
        m == pat@.len(),
        i + m <= n,
    ensures
        r == matches_at(s@, pat@, i as int),
{
    let mut k: usize = 0;
    while k < m
        invariant
            n == s@.len(),
            m == pat@.len(),
            i + m <= n,
            0 <= k <= m,
            forall|j: int| 0 <= j < k ==> s@[i + j] == pat@[j],
        decreases m - k,
    {
        if s.get_char(i + k) != pat.get_char(k) {
            proof {
                assert(s@.subrange(i as int, i + m as int)[k as int] != pat@[k as int]);
            }
            return false;
        }
        k += 1;
    }
    proof {
        assert(s@.subrange(i as int, i + m as int) =~= pat@);
    }
    true
}

/// Position of the leftmost occurrence of `pat` in `s`, as `str::find` gives it.
pub fn find_str(s: &str, pat: &str) -> (r: Option<usize>)
    ensures
        match r {
            Some(i) => find_from(s@, pat@, 0) == Some(i as int),
            None => find_from(s@, pat@, 0) is None,
        },
{
    let n = s.unicode_len();
    let m = pat.unicode_len();
    if m == 0 {
        proof {
            assert(s@.subrange(0, 0) =~= pat@);
        }
        return Some(0);
    }
    if m > n {
        return None;
    }
    let mut i: usize = 0;
    while i <= n - m
        invariant
            n == s@.len(),
            m == pat@.len(),
            1 <= m <= n,
            0 <= i <= n - m + 1,
            find_from(s@, pat@, 0) == find_from(s@, pat@, i as int),
        decreases n - i,
    {
        if matches_pat_at(s, pat, i, n, m) {
            return Some(i);
        }
        proof {
            assert(find_from(s@, pat@, i as int) == find_from(s@, pat@, i + 1));
        }
        i += 1;
    }
    assert(find_from(s@, pat@, i as int) is None);
    None
}

/// `str::contains` for a pattern string.
pub fn contains_str(s: &str, pat: &str) -> (r: bool)
    ensures
        r == contains_seq(s@, pat@),
{
    proof {
        lemma_find_iff_contains(s@, pat@);
    }
    match find_str(s, pat) {
        Some(_) => true,
        None => false,
    }
}

/// Character-for-character string equality.
pub fn str_eq(a: &str, b: &str) -> (r: bool)
    ensures
        r == (a@ == b@),
{
    let n = a.unicode_len();
    if n != b.unicode_len() {
        return false;
    }
    let mut k: usize = 0;
    while k < n
        invariant
            n == a@.len(),
            n == b@.len(),
            0 <= k <= n,
            forall|j: int| 0 <= j < k ==> a@[j] == b@[j],
        decreases n - k,
    {
        if a.get_char(k) != b.get_char(k) {
            return false;
        }
        k += 1;
    }
    proof {
        assert(a@ =~= b@);
    }
    true
}

/// The views of a sequence of owned strings.
pub open spec fn view_strings(s: Seq<String>) -> Seq<Seq<char>> {
    s.map_values(|t: String| t@)
}

/// String equality between an owned string and a slice.
pub fn string_eq_str(a: &String, b: &str) -> (r: bool)
    ensures
        r == (a@ == b@),
{
    str_eq(a.as_str(), b)
}

/// Whitespace as a predicate value, shared between specs and proofs.
pub open spec fn space_pred() -> spec_fn(char) -> bool {
    |c: char| is_space_char(c)
}

/// Equality with a fixed character, as a predicate value.
pub open spec fn char_pred(c: char) -> spec_fn(char) -> bool {
    |c2: char| c2 == c
}

/// Drops the longest prefix whose characters all satisfy `p`.
pub open spec fn drop_left_while(s: Seq<char>, p: spec_fn(char) -> bool) -> Seq<char>
    decreases s.len(),
{
    if s.len() > 0 && p(s[0]) {
        drop_left_while(s.drop_first(), p)
    } else {
        s
    }
}

/// Drops the longest suffix whose characters all satisfy `p`.
pub open spec fn drop_right_while(s: Seq<char>, p: spec_fn(char) -> bool) -> Seq<char>
    decreases s.len(),
{
    if s.len() > 0 && p(s[s.len() - 1]) {
        drop_right_while(s.drop_last(), p)
    } else {
        s
    }
}

/// What `str::trim` leaves of `s`.
pub open spec fn spec_trim(s: Seq<char>) -> Seq<char> {
    drop_right_while(drop_left_while(s, space_pred()), space_pred())
}

/// What `str::trim_matches(c)` leaves of `s`.
pub open spec fn spec_strip(s: Seq<char>, c: char) -> Seq<char> {
    drop_right_while(drop_left_while(s, char_pred(c)), char_pred(c))
}

proof fn lemma_drop_left_at(s: Seq<char>, p: spec_fn(char) -> bool, a: int)
    requires
        0 <= a <= s.len(),
        forall|j: int| 0 <= j < a ==> p(s[j]),
        a == s.len() || !p(s[a]),
    ensures
        drop_left_while(s, p) == s.subrange(a, s.len() as int),
    decreases a,
{
    if a == 0 {
        assert(s.subrange(0, s.len() as int) =~= s);
    } else {
        let t = s.drop_first();
        assert(forall|j: int| 0 <= j < a - 1 ==> p(t[j]));
        lemma_drop_left_at(t, p, a - 1);
        assert(t.subrange(a - 1, t.len() as int) =~= s.subrange(a, s.len() as int));
    }
}

proof fn lemma_drop_right_at(s: Seq<char>, p: spec_fn(char) -> bool, b: int)
    requires
        0 <= b <= s.len(),
        forall|j: int| b <= j < s.len() ==> p(s[j]),
        b == 0 || !p(s[b - 1]),
    ensures
        drop_right_while(s, p) == s.subrange(0, b),
    decreases s.len() - b,
{
    if b == s.len() {
        assert(s.subrange(0, s.len() as int) =~= s);
    } else {
        let t = s.drop_last();
        assert(forall|j: int| b <= j < t.len() ==> t[j] == s[j]);
        lemma_drop_right_at(t, p, b);
        assert(t.subrange(0, b) =~= s.subrange(0, b));
    }
}

/// `str::trim`: both ends freed of whitespace.
pub fn trim(s: &str) -> (r: &str)
    ensures
        r@ == spec_trim(s@),
{
    let n = s.unicode_len();
    let mut a: usize = 0;
    while a < n && is_space(s.get_char(a))
        invariant
            n == s@.len(),
            0 <= a <= n,
            forall|j: int| 0 <= j < a ==> is_space_char(s@[j]),
        decreases n - a,
    {
        a += 1;
    }
    proof {
        lemma_drop_left_at(s@, space_pred(), a as int);
    }
    let ghost t = s@.subrange(a as int, n as int);
    let mut b: usize = n;
    while b > a && is_space(s.get_char(b - 1))
        invariant
            n == s@.len(),
            0 <= a <= b <= n,
            forall|j: int| b <= j < n ==> is_space_char(s@[j]),
        decreases b,
    {
        b -= 1;
    }
    proof {
        assert(forall|j: int| b - a <= j < t.len() ==> #[trigger] t[j] == s@[j + a]);
        lemma_drop_right_at(t, space_pred(), b - a as int);
        assert(t.subrange(0, b - a as int) =~= s@.subrange(a as int, b as int));
    }
    s.substring_char(a, b)
}

/// `str::trim_matches(c)`: both ends freed of the character `c`.
pub fn strip_char(s: &str, c: char) -> (r: &str)
    ensures
        r@ == spec_strip(s@, c),
{
    let n = s.unicode_len();
    let mut a: usize = 0;
    while a < n && s.get_char(a) == c
        invariant
            n == s@.len(),
            0 <= a <= n,
            forall|j: int| 0 <= j < a ==> s@[j] == c,
        decreases n - a,
    {
        a += 1;
    }
    proof {
        lemma_drop_left_at(s@, char_pred(c), a as int);
    }
    let ghost t = s@.subrange(a as int, n as int);
    let mut b: usize = n;
    while b > a && s.get_char(b - 1) == c
        invariant
            n == s@.len(),
            0 <= a <= b <= n,
            forall|j: int| b <= j < n ==> s@[j] == c,
        decreases b,
    {
        b -= 1;
    }
    proof {
        assert(forall|j: int| b - a <= j < t.len() ==> #[trigger] t[j] == s@[j + a]);
        lemma_drop_right_at(t, char_pred(c), b - a as int);
        assert(t.subrange(0, b - a as int) =~= s@.subrange(a as int, b as int));
    }
    s.substring_char(a, b)
}

/// An ASCII decimal digit.
pub open spec fn is_digit_char(c: char) -> bool {
    48 <= c as u32 <= 57
}

/// The numeric value of an ASCII digit (meaningful only for digits).
pub open spec fn digit_val(c: char) -> int {
    c as u32 - 48
}

pub open spec fn all_digits(s: Seq<char>) -> bool {
    forall|i: int| 0 <= i < s.len() ==> is_digit_char(s[i])
}

/// The number denoted by a sequence of ASCII digits, most significant first.
pub open spec fn numeral_val(s: Seq<char>) -> int
    decreases s.len(),
{
    if s.len() == 0 {
        0
    } else {
        numeral_val(s.drop_last()) * 10 + digit_val(s.last())
    }
}

/// The digit part of a numeral as `u32::from_str` reads it: an optional
/// leading `+` sign is dropped.
pub open spec fn digits_of(s: Seq<char>) -> Seq<char> {
    if s.len() > 0 && s[0] == '+' {
        s.drop_first()
    } else {
        s
    }
}

/// What `str::parse::<u32>` accepts and returns: an optional `+` sign,
/// one or more ASCII digits, and a value within range.
pub open spec fn spec_parse_u32(s: Seq<char>) -> Option<u32> {
    let d = digits_of(s);
    if d.len() > 0 && all_digits(d) && numeral_val(d) <= u32::MAX {
        Some(numeral_val(d) as u32)
    } else {
        None
    }
}

/// A digit string's value only grows as further digits are appended.
proof fn lemma_numeral_prefix_le(s: Seq<char>, j: int)
    requires
        0 <= j <= s.len(),
        numeral_val(s.take(j)) >= 0,
        forall|i: int| j <= i < s.len() ==> is_digit_char(s[i]),
    ensures
        numeral_val(s.take(j)) <= numeral_val(s),
        numeral_val(s) >= 0,
    decreases s.len() - j,
{
    if j == s.len() {
        assert(s.take(j) =~= s);
    } else {
        assert(s.take(j + 1).drop_last() =~= s.take(j));
        assert(s.take(j + 1).last() == s[j]);
        lemma_numeral_prefix_le(s, j + 1);
    }
}

/// `str::parse::<u32>`, verified against `spec_parse_u32`.
pub fn parse_u32(s: &str) -> (r: Option<u32>)
    ensures
        r == spec_parse_u32(s@),
{
    let n = s.unicode_len();
    let mut k: usize = 0;
    if n > 0 && s.get_char(0) == '+' {
        k = 1;
    }
    let ghost d = digits_of(s@);
    proof {
        assert(d =~= s@.subrange(k as int, n as int));
    }
    if k == n {
        return None;
    }
    let mut acc: u32 = 0;
    let mut i: usize = k;
    while i < n
        invariant
            n == s@.len(),
            k <= i <= n,
            k < n,
            d == digits_of(s@),
            d == s@.subrange(k as int, n as int),
            forall|j: int| k <= j < i ==> is_digit_char(s@[j]),
            acc == numeral_val(s@.subrange(k as int, i as int)),
        decreases n - i,
    {
        let c = s.get_char(i);
        let cv = c as u32;
        if cv < 48 || cv > 57 {
            proof {
                assert(d[i - k] == s@[i as int]);
                assert(!all_digits(d));
            }
            return None;
        }
        let dv = cv - 48;
        proof {
            assert(s@.subrange(k as int, i + 1).drop_last() =~= s@.subrange(
                k as int,
                i as int,
            ));
            assert(s@.subrange(k as int, i + 1).last() == s@[i as int]);
        }
        if acc > (u32::MAX - dv) / 10 {
            proof {
                assert(acc * 10 + dv > u32::MAX) by (nonlinear_arith)
                    requires
                        acc > (u32::MAX - dv) / 10,
                        dv <= 9,
                ;
                assert(numeral_val(s@.subrange(k as int, i + 1)) > u32::MAX);
                assert(forall|j: int| 0 <= j < i + 1 - k ==> s@.subrange(k as int, n as int)[j]
                    == s@[j + k]);
                assert(d.take(i + 1 - k) =~= s@.subrange(k as int, i + 1));
                if all_digits(d) {
                    lemma_numeral_prefix_le(d, i + 1 - k);
                    assert(numeral_val(d) > u32::MAX);
                }
            }
            return None;
        }
        acc = acc * 10 + dv;
        i += 1;
    }
    proof {
        assert(s@.subrange(k as int, i as int) =~= d);
        assert(all_digits(d));
        assert(numeral_val(d) == acc);
    }
    Some(acc)
}

/// The character for one digit value.
pub open spec fn digit_char_of(d: int) -> char {
    if d == 0 {
        '0'
    } else if d == 1 {
        '1'
    } else if d == 2 {
        '2'
    } else if d == 3 {
        '3'
    } else if d == 4 {
        '4'
    } else if d == 5 {
        '5'
    } else if d == 6 {
        '6'
    } else if d == 7 {
        '7'
    } else if d == 8 {
        '8'
    } else {
        '9'
    }
}

/// The decimal rendering of a non-negative number, as `format!` writes it.
pub open spec fn dec_str_of(n: int) -> Seq<char>
    decreases n,
{
    if n < 10 {
        seq![digit_char_of(n)]
    } else {
        dec_str_of(n / 10) + seq![digit_char_of(n % 10)]
    }
}

fn digit_str(d: u32) -> (r: &'static str)
    requires
        d < 10,
    ensures
        r@ == seq![digit_char_of(d as int)],
{
    if d == 0 {
        proof {
            reveal_strlit("0");
        }
        assert("0"@ =~= seq![digit_char_of(0)]);
        "0"
    } else if d == 1 {
        proof {
            reveal_strlit("1");
        }
        assert("1"@ =~= seq![digit_char_of(1)]);
        "1"
    } else if d == 2 {
        proof {
            reveal_strlit("2");
        }
        assert("2"@ =~= seq![digit_char_of(2)]);
        "2"
    } else if d == 3 {
        proof {
            reveal_strlit("3");
        }
        assert("3"@ =~= seq![digit_char_of(3)]);
        "3"
    } else if d == 4 {
        proof {
            reveal_strlit("4");
        }
        assert("4"@ =~= seq![digit_char_of(4)]);
        "4"
    } else if d == 5 {
        proof {
            reveal_strlit("5");
        }
        assert("5"@ =~= seq![digit_char_of(5)]);
        "5"
    } else if d == 6 {
        proof {
            reveal_strlit("6");
        }
        assert("6"@ =~= seq![digit_char_of(6)]);
        "6"
    } else if d == 7 {
        proof {
            reveal_strlit("7");
        }
        assert("7"@ =~= seq![digit_char_of(7)]);
        "7"
    } else if d == 8 {
        proof {
            reveal_strlit("8");
        }
        assert("8"@ =~= seq![digit_char_of(8)]);
        "8"
    } else {
        proof {
            reveal_strlit("9");
        }
        assert("9"@ =~= seq![digit_char_of(9)]);
        "9"
    }
}

/// Decimal rendering of a `u32`.
pub fn u32_to_string(x: u32) -> (r: String)
    ensures
        r@ == dec_str_of(x as int),
    decreases x,
{
    if x < 10 {
        String::from_str(digit_str(x))
    } else {
        let mut s = u32_to_string(x / 10);
        s.append(digit_str(x % 10));
        s
    }
}

} // verus!
