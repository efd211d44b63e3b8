//! Decimal numbers as text. Of fractions only the notation: their values are floating point.

use crate::text::{chars_of, string_of};
use vstd::prelude::*;
use vstd::slice::slice_subrange;

verus! {

/// The digit for `d`, which is below ten.
pub open spec fn digit(d: int) -> char {
    (48 + d) as char
}

/// `c` is an ASCII digit.
pub open spec fn is_digit(c: char) -> bool {
    '0' <= c <= '9'
}

/// The decimal notation of a number, without leading zeros.
pub open spec fn decimal(n: nat) -> Seq<char>
    decreases n,
{
    if n < 10 {
        seq![digit(n as int)]
    } else {
        decimal(n / 10).push(digit((n % 10) as int))
    }
}

/// The number that some digits denote.
pub open spec fn value(s: Seq<char>) -> nat
    decreases s.len(),
{
    if s.len() == 0 {
        0
    } else {
        (value(s.drop_last()) * 10 + (s.last() as int - 48)) as nat
    }
}

/// Every character of `s` is a digit.
pub open spec fn all_digits(s: Seq<char>) -> bool {
    forall|i: int| 0 <= i < s.len() ==> is_digit(s[i])
}

/// The number that `s` denotes as Rust's unsigned `parse` reads it: at least one digit, a `+`
/// allowed before them, and no more than `max`.
pub open spec fn number(s: Seq<char>, max: nat) -> Option<nat> {
    let body = if s.len() > 0 && s[0] == '+' {
        s.skip(1)
    } else {
        s
    };
    if body.len() > 0 && all_digits(body) && value(body) <= max {
        Some(value(body))
    } else {
        None
    }
}

/// A decimal notation is made of digits, and they denote the number.
pub proof fn decimal_is_read_back(n: nat, max: nat)
    requires
        n <= max,
    ensures
        number(decimal(n), max) == Some(n),
{
    lemma_decimal(n);
}

/// `decimal(n)` is a non-empty run of digits with the value `n`.
pub proof fn lemma_decimal(n: nat)
    ensures
        decimal(n).len() > 0,
        all_digits(decimal(n)),
        value(decimal(n)) == n,
    decreases n,
{
    reveal_with_fuel(value, 2);
    if n < 10 {
        assert(decimal(n).drop_last() =~= Seq::empty());
    } else {
        lemma_decimal(n / 10);
        assert(decimal(n).drop_last() =~= decimal(n / 10));
        assert forall|i: int| 0 <= i < decimal(n).len() implies is_digit(decimal(n)[i]) by {
            if i < decimal(n).len() - 1 {
                assert(decimal(n)[i] == decimal(n / 10)[i]);
            }
        }
    }
}

proof fn lemma_value_prefix(s: Seq<char>, i: int)
    requires
        0 <= i <= s.len(),
        all_digits(s),
    ensures
        value(s.take(i)) <= value(s),
    decreases s.len() - i,
{
    if i < s.len() {
        lemma_value_prefix(s, i + 1);
        assert(s.take(i + 1).drop_last() =~= s.take(i));
    } else {
        assert(s.take(i) =~= s);
    }
}

/// The decimal notation of `n`.
pub fn to_decimal(n: u64) -> (r: String)
    ensures
        r@ == decimal(n as nat),
{
    string_of(&decimal_chars(n))
}

/// The decimal notation of a number that may be negative.
pub open spec fn signed(n: int) -> Seq<char> {
    if n < 0 {
        "-"@ + decimal((-n) as nat)
    } else {
        decimal(n as nat)
    }
}

/// The decimal notation of `n`.
pub fn to_signed(n: i32) -> (r: String)
    ensures
        r@ == signed(n as int),
{
    if n < 0 {
        let mut out = crate::text::copy("-");
        out.push_str(to_decimal((-(n as i64)) as u64).as_str());
        out
    } else {
        to_decimal(n as u64)
    }
}

/// The characters of the decimal notation of `n`.
pub fn decimal_chars(n: u64) -> (r: Vec<char>)
    ensures
        r@ == decimal(n as nat),
    decreases n,
{
    let mut out: Vec<char> = if n < 10 {
        Vec::new()
    } else {
        decimal_chars(n / 10)
    };
    let d: u8 = (n % 10) as u8;
    out.push((48 + d) as char);
    assert(out@ =~= decimal(n as nat));
    out
}

/// The number that `s` denotes, if it is one and at most `max`.
pub fn parse_upto(s: &[char], max: u64) -> (r: Option<u64>)
    ensures
        match r {
            Some(n) => number(s@, max as nat) == Some(n as nat),
            None => number(s@, max as nat) is None,
        },
{
    let start: usize = if s.len() > 0 && s[0] == '+' {
        1
    } else {
        0
    };
    let ghost body = s@.skip(start as int);
    assert(start == 0 ==> body =~= s@);
    if s.len() == start {
        return None;
    }
    let mut n: u64 = 0;
    let mut i: usize = start;
    assert(body.take(0) =~= Seq::empty());
    while i < s.len()
        invariant
            start <= i <= s.len(),
            start < s.len(),
            body == s@.skip(start as int),
            start == if s@.len() > 0 && s@[0] == '+' {
                1int
            } else {
                0
            },
            start == 0 ==> body == s@,
            n <= max,
            n == value(body.take(i - start)),
            forall|j: int| 0 <= j < i - start ==> is_digit(body[j]),
        decreases s.len() - i,
    {
        let c = s[i];
        assert(body[i - start] == c);
        if !('0' <= c && c <= '9') {
            assert(!all_digits(body));
            return None;
        }
        let d: u64 = (c as u8 - 48) as u64;
        assert(body.take(i + 1 - start).drop_last() =~= body.take(i - start));
        let next: u128 = n as u128 * 10 + d as u128;
        assert(next == value(body.take(i + 1 - start)));
        if next > max as u128 {
            proof {
                if all_digits(body) {
                    lemma_value_prefix(body, i + 1 - start);
                }
            }
            return None;
        }
        n = next as u64;
        i += 1;
    }
    assert(body.take(body.len() as int) =~= body);
    Some(n)
}

/// `str::parse::<u64>`.
pub fn parse_u64(s: &[char]) -> (r: Option<u64>)
    ensures
        match r {
            Some(n) => number(s@, u64::MAX as nat) == Some(n as nat),
            None => number(s@, u64::MAX as nat) is None,
        },
{
    parse_upto(s, u64::MAX)
}

/// `str::parse::<u32>`.
pub fn parse_u32(s: &[char]) -> (r: Option<u32>)
    ensures
        match r {
            Some(n) => number(s@, u32::MAX as nat) == Some(n as nat),
            None => number(s@, u32::MAX as nat) is None,
        },
{
    match parse_upto(s, u32::MAX as u64) {
        Some(n) => Some(n as u32),
        None => None,
    }
}

/// `str::parse::<usize>`.
pub fn parse_usize(s: &[char]) -> (r: Option<usize>)
    ensures
        match r {
            Some(n) => number(s@, usize::MAX as nat) == Some(n as nat),
            None => number(s@, usize::MAX as nat) is None,
        },
{
    match parse_upto(s, usize::MAX as u64) {
        Some(n) => Some(n as usize),
        None => None,
    }
}

// ------------------------------------------------------------------ fractions

/// `s` without the sign before it, where there is one.
pub open spec fn unsigned(s: Seq<char>) -> Seq<char> {
    if s.len() > 0 && (s[0] == '+' || s[0] == '-') {
        s.skip(1)
    } else {
        s
    }
}

/// `s` without the digits it begins with.
pub open spec fn after_digits(s: Seq<char>) -> Seq<char>
    decreases s.len(),
{
    if s.len() > 0 && is_digit(s[0]) {
        after_digits(s.skip(1))
    } else {
        s
    }
}

/// `s` is nothing, or an exponent: `e`, a sign or none, digits.
pub open spec fn is_exponent(s: Seq<char>) -> bool {
    s.len() > 0 ==> {
        let d = unsigned(s.skip(1));
        &&& s[0] == 'e' || s[0] == 'E'
        &&& d.len() > 0
        &&& after_digits(d).len() == 0
    }
}

/// `s` is `word` (whose capitals are `capitals`), whatever the case of its letters.
pub open spec fn spells(s: Seq<char>, word: Seq<char>, capitals: Seq<char>) -> bool {
    &&& s.len() == word.len()
    &&& forall|i: int| 0 <= i < s.len() ==> #[trigger] s[i] == word[i] || s[i] == capitals[i]
}

/// `s` reads as a fraction, as Rust's `parse` of a floating-point number has it: a sign or none,
/// then digits with a point or none among them, at least one, and an exponent or none; or the
/// words for infinity and for what is not a number.
pub open spec fn is_fraction(s: Seq<char>) -> bool {
    let t = unsigned(s);
    let a = after_digits(t);
    ||| spells(t, "inf"@, "INF"@)
    ||| spells(t, "infinity"@, "INFINITY"@)
    ||| spells(t, "nan"@, "NAN"@)
    ||| if a.len() > 0 && a[0] == '.' {
        let f = after_digits(a.skip(1));
        (a.len() < t.len() || f.len() < a.len() - 1) && is_exponent(f)
    } else {
        a.len() < t.len() && is_exponent(a)
    }
}

fn skip_sign(s: &[char]) -> (r: &[char])
    ensures
        r@ == unsigned(s@),
{
    if s.len() > 0 && (s[0] == '+' || s[0] == '-') {
        slice_subrange(s, 1, s.len())
    } else {
        s
    }
}

fn skip_digits(s: &[char]) -> (r: &[char])
    ensures
        r@ == after_digits(s@),
        r@.len() <= s@.len(),
{
    let mut i: usize = 0;
    assert(s@.skip(0) =~= s@);
    while i < s.len() && '0' <= s[i] && s[i] <= '9'
        invariant
            i <= s.len(),
            after_digits(s@) == after_digits(s@.skip(i as int)),
        decreases s.len() - i,
    {
        assert(s@.skip(i as int).skip(1) =~= s@.skip(i + 1));
        i += 1;
    }
    slice_subrange(s, i, s.len())
}

fn exponent(s: &[char]) -> (r: bool)
    ensures
        r == is_exponent(s@),
{
    if s.len() == 0 {
        return true;
    }
    let d = skip_sign(slice_subrange(s, 1, s.len()));
    (s[0] == 'e' || s[0] == 'E') && d.len() > 0 && skip_digits(d).len() == 0
}

fn spelled(s: &[char], word: &str, capitals: &str) -> (r: bool)
    requires
        word@.len() == capitals@.len(),
    ensures
        r == spells(s@, word@, capitals@),
{
    let w = chars_of(word);
    let c = chars_of(capitals);
    if s.len() != w.len() {
        return false;
    }
    let mut i: usize = 0;
    while i < s.len()
        invariant
            i <= s.len(),
            s@.len() == w@.len(),
            w@ == word@,
            c@ == capitals@,
            w@.len() == c@.len(),
            forall|j: int| 0 <= j < i ==> #[trigger] s@[j] == word@[j] || s@[j] == capitals@[j],
        decreases s.len() - i,
    {
        if s[i] != w[i] && s[i] != c[i] {
            return false;
        }
        i += 1;
    }
    true
}

/// Whether `s` reads as a fraction.
pub fn reads_as_fraction(s: &[char]) -> (r: bool)
    ensures
        r == is_fraction(s@),
{
    proof {
        reveal_strlit("inf");
        reveal_strlit("INF");
        reveal_strlit("infinity");
        reveal_strlit("INFINITY");
        reveal_strlit("nan");
        reveal_strlit("NAN");
    }
    let t = skip_sign(s);
    if spelled(t, "inf", "INF") || spelled(t, "infinity", "INFINITY") || spelled(t, "nan", "NAN") {
        return true;
    }
    let a = skip_digits(t);
    if a.len() > 0 && a[0] == '.' {
        let f = skip_digits(slice_subrange(a, 1, a.len()));
        (a.len() < t.len() || f.len() < a.len() - 1) && exponent(f)
    } else {
        a.len() < t.len() && exponent(a)
    }
}

} // verus!
