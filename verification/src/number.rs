//! Decimal text of integers, read and written as Rust's `FromStr` and
//! `Display` for the primitive integer types do.
use vstd::prelude::*;
use crate::text::is_digit;

verus! {

/// The numeric value of the decimal digit `c`.
pub open spec fn digit_value(c: char) -> nat {
    (c as int - '0' as int) as nat
}

/// The value of a run of decimal digits.
pub open spec fn digits_value(s: Seq<char>) -> nat
    decreases s.len(),
{
    if s.len() == 0 {
        0
    } else {
        digits_value(s.drop_last()) * 10 + digit_value(s.last())
    }
}

/// Every character of `s` is a decimal digit.
pub open spec fn all_digits(s: Seq<char>) -> bool {
    forall|i: int| 0 <= i < s.len() ==> is_digit(#[trigger] s[i])
}

/// The value that an unsigned integer type's `from_str` reads from `s`,
/// before its range is checked: an optional `+` and at least one digit.
pub open spec fn unsigned_text(s: Seq<char>) -> Option<nat> {
    let body = if s.len() > 0 && s[0] == '+' { s.drop_first() } else { s };
    if body.len() > 0 && all_digits(body) {
        Some(digits_value(body))
    } else {
        None
    }
}

/// The value that a signed integer type's `from_str` reads from `s`,
/// before its range is checked: an optional `+` or `-` and at least one digit.
pub open spec fn signed_text(s: Seq<char>) -> Option<int> {
    let neg = s.len() > 0 && s[0] == '-';
    let body = if s.len() > 0 && (s[0] == '+' || s[0] == '-') { s.drop_first() } else { s };
    if body.len() > 0 && all_digits(body) {
        Some(if neg { -(digits_value(body) as int) } else { digits_value(body) as int })
    } else {
        None
    }
}

/// What `s.parse::<T>().ok()` gives for an unsigned `T` whose largest value is `max`.
pub open spec fn parse_unsigned_of(s: Seq<char>, max: nat) -> Option<nat> {
    match unsigned_text(s) {
        Some(v) => if v <= max { Some(v) } else { None },
        None => None,
    }
}

/// What `s.parse::<T>().ok()` gives for a signed `T` with range `min..=max`.
pub open spec fn parse_signed_of(s: Seq<char>, min: int, max: int) -> Option<int> {
    match signed_text(s) {
        Some(v) => if min <= v <= max { Some(v) } else { None },
        None => None,
    }
}

proof fn lemma_digits_value_prefix(s: Seq<char>, k: int)
    requires
        0 <= k <= s.len(),
    ensures
        digits_value(s.take(k)) <= digits_value(s),
    decreases s.len() - k,
{
    if k < s.len() {
        lemma_digits_value_prefix(s, k + 1);
        assert(s.take(k + 1).drop_last() =~= s.take(k));
    } else {
        assert(s.take(k) =~= s);
    }
}

/// The value of the digits `s[from..]`, if they are all digits, not empty,
/// and the value is at most `max`.
fn digits_at_most(s: &Vec<char>, from: usize, max: u64) -> (r: Option<u64>)
    requires
        from <= s.len(),
    ensures
        ({
            let body = s@.skip(from as int);
            match r {
                Some(v) => body.len() > 0 && all_digits(body) && v == digits_value(body) && v <= max,
                None => !(body.len() > 0 && all_digits(body) && digits_value(body) <= max),
            }
        }),
{
    let ghost body = s@.skip(from as int);
    if from == s.len() {
        return None;
    }
    let mut acc: u64 = 0;
    let mut i: usize = from;
    while i < s.len()
        invariant
            from <= i <= s.len(),
            body == s@.skip(from as int),
            all_digits(body.take(i - from)),
            acc == digits_value(body.take(i - from)),
            acc <= max,
        decreases s.len() - i,
    {
        let c = s[i];
        assert(body[i - from] == c);
        if !('0' <= c && c <= '9') {
            assert(!all_digits(body));
            return None;
        }
        let d = (c as u32 - '0' as u32) as u64;
        assert(body.take(i + 1 - from).drop_last() =~= body.take(i - from));
        assert(digits_value(body.take(i + 1 - from)) == acc * 10 + d);
        if d > max || acc > (max - d) / 10 {
            proof {
                if d <= max {
                    assert(acc * 10 + d > max) by (nonlinear_arith)
                        requires acc > (max - d) / 10, d <= max;
                }
                lemma_digits_value_prefix(body, i + 1 - from);
            }
            return None;
        }
        assert(acc * 10 + d <= max) by (nonlinear_arith)
            requires acc <= (max - d) / 10, d <= max;
        acc = acc * 10 + d;
        i = i + 1;
    }
    assert(body.take(s.len() - from) =~= body);
    Some(acc)
}


/// `s.parse::<T>().ok()` for an unsigned `T` whose largest value is `max`.
pub fn parse_unsigned(s: &Vec<char>, max: u64) -> (r: Option<u64>)
    ensures
        match r {
            Some(v) => parse_unsigned_of(s@, max as nat) == Some(v as nat),
            None => parse_unsigned_of(s@, max as nat) is None,
        },
{
    let from: usize = if s.len() > 0 && s[0] == '+' { 1 } else { 0 };
    proof {
        if from == 1 {
            assert(s@.skip(1) =~= s@.drop_first());
        } else {
            assert(s@.skip(0) =~= s@);
        }
    }
    digits_at_most(s, from, max)
}

/// `s.parse::<T>().ok()` for a signed `T` with range `-max_neg..=max`.
pub fn parse_signed(s: &Vec<char>, max_neg: u64, max: u64) -> (r: Option<(bool, u64)>)
    ensures
        match r {
            Some((neg, m)) => parse_signed_of(s@, -(max_neg as int), max as int) == Some(
                if neg { -(m as int) } else { m as int },
            ) && (neg ==> m <= max_neg) && (!neg ==> m <= max),
            None => parse_signed_of(s@, -(max_neg as int), max as int) is None,
        },
{
    let neg = s.len() > 0 && s[0] == '-';
    let from: usize = if s.len() > 0 && (s[0] == '+' || s[0] == '-') { 1 } else { 0 };
    proof {
        if from == 1 {
            assert(s@.skip(1) =~= s@.drop_first());
        } else {
            assert(s@.skip(0) =~= s@);
        }
    }
    let bound = if neg { max_neg } else { max };
    match digits_at_most(s, from, bound) {
        Some(m) => Some((neg, m)),
        None => None,
    }
}

/// `s.parse::<u8>().ok()`.
pub fn parse_u8(s: &Vec<char>) -> (r: Option<u8>)
    ensures
        match r {
            Some(v) => parse_unsigned_of(s@, 255) == Some(v as nat),
            None => parse_unsigned_of(s@, 255) is None,
        },
{
    match parse_unsigned(s, 255) {
        Some(v) => Some(v as u8),
        None => None,
    }
}

/// `s.parse::<u32>().ok()`.
pub fn parse_u32(s: &Vec<char>) -> (r: Option<u32>)
    ensures
        match r {
            Some(v) => parse_unsigned_of(s@, u32::MAX as nat) == Some(v as nat),
            None => parse_unsigned_of(s@, u32::MAX as nat) is None,
        },
{
    match parse_unsigned(s, u32::MAX as u64) {
        Some(v) => Some(v as u32),
        None => None,
    }
}

/// `s.parse::<u64>().ok()`.
pub fn parse_u64(s: &Vec<char>) -> (r: Option<u64>)
    ensures
        match r {
            Some(v) => parse_unsigned_of(s@, u64::MAX as nat) == Some(v as nat),
            None => parse_unsigned_of(s@, u64::MAX as nat) is None,
        },
{
    parse_unsigned(s, u64::MAX)
}

/// `s.parse::<i32>().ok()`.
pub fn parse_i32(s: &Vec<char>) -> (r: Option<i32>)
    ensures
        match r {
            Some(v) => parse_signed_of(s@, i32::MIN as int, i32::MAX as int) == Some(v as int),
            None => parse_signed_of(s@, i32::MIN as int, i32::MAX as int) is None,
        },
{
    match parse_signed(s, 0x8000_0000, 0x7fff_ffff) {
        Some((neg, m)) => if neg {
            if m == 0x8000_0000 { Some(i32::MIN) } else { Some(-(m as i32)) }
        } else {
            Some(m as i32)
        },
        None => None,
    }
}

/// `s.parse::<i64>().ok()`.
pub fn parse_i64(s: &Vec<char>) -> (r: Option<i64>)
    ensures
        match r {
            Some(v) => parse_signed_of(s@, i64::MIN as int, i64::MAX as int) == Some(v as int),
            None => parse_signed_of(s@, i64::MIN as int, i64::MAX as int) is None,
        },
{
    match parse_signed(s, 0x8000_0000_0000_0000, 0x7fff_ffff_ffff_ffff) {
        Some((neg, m)) => if neg {
            if m == 0x8000_0000_0000_0000 { Some(i64::MIN) } else { Some(-(m as i64)) }
        } else {
            Some(m as i64)
        },
        None => None,
    }
}

/// The decimal digit for `d < 10`.
pub open spec fn digit_char(d: nat) -> char {
    (d + '0' as nat) as char
}

/// The decimal text of `n`, without sign or leading zeros (`Display`).
pub open spec fn decimal_of(n: nat) -> Seq<char>
    decreases n,
{
    if n < 10 {
        seq![digit_char(n)]
    } else {
        decimal_of(n / 10).push(digit_char(n % 10))
    }
}

/// The decimal text of a signed value, with `-` before negatives.
pub open spec fn signed_decimal_of(n: int) -> Seq<char> {
    if n < 0 {
        seq!['-'] + decimal_of((-n) as nat)
    } else {
        decimal_of(n as nat)
    }
}

fn digit(d: u64) -> (c: char)
    requires
        d < 10,
    ensures
        c == digit_char(d as nat),
{
    if d == 0 { '0' } else if d == 1 { '1' } else if d == 2 { '2' } else if d == 3 { '3' }
    else if d == 4 { '4' } else if d == 5 { '5' } else if d == 6 { '6' } else if d == 7 { '7' }
    else if d == 8 { '8' } else { '9' }
}

/// The decimal text of `n` (`n.to_string()`).
pub fn u64_text(n: u64) -> (r: Vec<char>)
    ensures
        r@ == decimal_of(n as nat),
    decreases n,
{
    if n < 10 {
        let mut r: Vec<char> = Vec::new();
        r.push(digit(n));
        assert(r@ =~= decimal_of(n as nat));
        r
    } else {
        let mut r = u64_text(n / 10);
        r.push(digit(n % 10));
        r
    }
}

/// The decimal text of `n`, with `-` before negatives (`n.to_string()`).
pub fn i64_text(n: i64) -> (r: Vec<char>)
    ensures
        r@ == signed_decimal_of(n as int),
{
    if n < 0 {
        let m: u64 = if n == i64::MIN { 0x8000_0000_0000_0000 } else { (-n) as u64 };
        let d = u64_text(m);
        let mut r: Vec<char> = Vec::new();
        r.push('-');
        crate::text::extend(&mut r, &d);
        assert(r@ =~= signed_decimal_of(n as int));
        r
    } else {
        u64_text(n as u64)
    }
}


proof fn lemma_digits_value_bound(s: Seq<char>)
    requires
        all_digits(s),
    ensures
        digits_value(s) < pow10(s.len()),
    decreases s.len(),
{
    if s.len() > 0 {
        assert(all_digits(s.drop_last()));
        lemma_digits_value_bound(s.drop_last());
        assert(digits_value(s) < pow10(s.len())) by (nonlinear_arith)
            requires
                digits_value(s) == digits_value(s.drop_last()) * 10 + digit_value(s.last()),
                digit_value(s.last()) <= 9,
                digits_value(s.drop_last()) < pow10((s.len() - 1) as nat),
                pow10(s.len()) == pow10((s.len() - 1) as nat) * 10,
        ;
    }
}

/// `10^n`.
pub open spec fn pow10(n: nat) -> nat
    decreases n,
{
    if n == 0 {
        1
    } else {
        pow10((n - 1) as nat) * 10
    }
}

/// A signed value read from at most two characters lies within `-9..=99`.
pub proof fn lemma_two_chars_bounded(s: Seq<char>)
    requires
        s.len() <= 2,
    ensures
        signed_text(s) matches Some(v) ==> -9 <= v <= 99,
{
    let body = if s.len() > 0 && (s[0] == '+' || s[0] == '-') { s.drop_first() } else { s };
    if body.len() > 0 && all_digits(body) {
        lemma_digits_value_bound(body);
        assert(pow10(0) == 1);
        assert(pow10(1) == 10);
        assert(pow10(2) == 100);
    }
}

} // verus!
