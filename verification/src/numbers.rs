//! Decimal text of integers: `to_string` and `str::parse` for the integer types the records
//! use.
use vstd::prelude::*;

verus! {

/// The ASCII digit for `d` (`0..=9`).
pub open spec fn digit_char(d: int) -> char {
    (('0' as u32) + d) as char
}

/// The decimal digits of `n`, most significant first, without leading zeros (`0` for zero).
pub open spec fn decimal(n: nat) -> Seq<char>
    decreases n,
{
    if n < 10 {
        seq![digit_char(n as int)]
    } else {
        decimal(n / 10).push(digit_char((n % 10) as int))
    }
}

/// The text of `n` as `i64::to_string` writes it: a `-` before negative numbers.
pub open spec fn signed_decimal(n: int) -> Seq<char> {
    if n < 0 {
        seq!['-'] + decimal((-n) as nat)
    } else {
        decimal(n as nat)
    }
}

/// Every number has at least one digit.
pub proof fn lemma_decimal_nonempty(n: nat)
    ensures
        decimal(n).len() >= 1,
    decreases n,
{
    if n >= 10 {
        lemma_decimal_nonempty(n / 10);
    }
}

fn digit_char_exec(d: u128) -> (c: char)
    requires
        d < 10,
    ensures
        c == digit_char(d as int),
{
    ((d as u8) + 48) as char
}

/// The decimal text of `n`.
pub fn u128_to_decimal(n: u128) -> (r: Vec<char>)
    ensures
        r@ == decimal(n as nat),
    decreases n,
{
    if n < 10 {
        let r = vec![digit_char_exec(n)];
        assert(r@ =~= decimal(n as nat));
        r
    } else {
        let mut r = u128_to_decimal(n / 10);
        r.push(digit_char_exec(n % 10));
        r
    }
}

/// The decimal text of `n` (`i64::to_string`).
pub fn i64_to_decimal(n: i64) -> (r: Vec<char>)
    ensures
        r@ == signed_decimal(n as int),
{
    if n < 0 {
        let magnitude: u128 = (0i128 - (n as i128)) as u128;
        let mut r = vec!['-'];
        crate::text::push_all(&mut r, &u128_to_decimal(magnitude));
        assert(r@ =~= signed_decimal(n as int));
        r
    } else {
        u128_to_decimal(n as u128)
    }
}

/// The value of the decimal digits `d`.
pub open spec fn digits_value(d: Seq<char>) -> nat
    decreases d.len(),
{
    if d.len() == 0 {
        0
    } else {
        digits_value(d.drop_last()) * 10 + ((d.last() as u32) - ('0' as u32)) as nat
    }
}

/// Every character of `d` is an ASCII digit.
pub open spec fn all_digits(d: Seq<char>) -> bool {
    forall|i: int| 0 <= i < d.len() ==> '0' <= #[trigger] d[i] && d[i] <= '9'
}

/// The sign and the digits of a number's text: an optional leading `-` or `+` taken off.
pub open spec fn sign_and_digits(s: Seq<char>, signed: bool) -> (bool, Seq<char>) {
    if s.len() > 0 && s[0] == '-' && signed {
        (true, s.drop_first())
    } else if s.len() > 0 && s[0] == '+' {
        (false, s.drop_first())
    } else {
        (false, s)
    }
}

/// `str::parse::<i64>`: an optional sign and at least one digit, in range.
pub open spec fn parse_i64(s: Seq<char>) -> Option<i64> {
    let (negative, digits) = sign_and_digits(s, true);
    if digits.len() == 0 || !all_digits(digits) {
        None
    } else {
        let v = if negative {
            -(digits_value(digits) as int)
        } else {
            digits_value(digits) as int
        };
        if i64::MIN <= v && v <= i64::MAX {
            Some(v as i64)
        } else {
            None
        }
    }
}

/// `str::parse::<u32>`: an optional `+` and at least one digit, in range.
pub open spec fn parse_u32(s: Seq<char>) -> Option<u32> {
    let (_, digits) = sign_and_digits(s, false);
    if digits.len() == 0 || !all_digits(digits) || digits_value(digits) > u32::MAX {
        None
    } else {
        Some(digits_value(digits) as u32)
    }
}

proof fn lemma_digits_value_grows(d: Seq<char>, k: int)
    requires
        0 <= k <= d.len(),
        all_digits(d),
    ensures
        digits_value(d.take(k)) <= digits_value(d),
    decreases d.len() - k,
{
    if k < d.len() {
        lemma_digits_value_grows(d, k + 1);
        assert(d.take(k + 1).drop_last() =~= d.take(k));
        assert(d.take(k + 1).last() == d[k]);
    } else {
        assert(d.take(k) =~= d);
    }
}

/// The value of the digits of `s` from `start`, if they are all digits and the value stays
/// at most `limit`.
fn digits_value_capped(s: &Vec<char>, start: usize, limit: u128) -> (r: Option<u128>)
    requires
        start <= s.len(),
        limit <= u64::MAX,
    ensures
        r matches Some(v) ==> all_digits(s@.subrange(start as int, s.len() as int)) && v
            == digits_value(s@.subrange(start as int, s.len() as int)) && v <= limit,
        r is None ==> !all_digits(s@.subrange(start as int, s.len() as int)) || digits_value(
            s@.subrange(start as int, s.len() as int),
        ) > limit,
{
    let ghost d = s@.subrange(start as int, s.len() as int);
    let mut value: u128 = 0;
    let mut k: usize = start;
    while k < s.len()
        invariant
            start <= k <= s.len(),
            d == s@.subrange(start as int, s.len() as int),
            limit <= u64::MAX,
            all_digits(d.take(k - start)),
            value == digits_value(d.take(k - start)),
            value <= limit,
        decreases s.len() - k,
    {
        let c = s[k];
        assert(d.take(k - start + 1).drop_last() =~= d.take(k - start));
        assert(d[k - start] == c);
        if !('0' <= c && c <= '9') {
            assert(!all_digits(d)) by {
                assert(!('0' <= d[k - start] && d[k - start] <= '9'));
            }
            return None;
        }
        value = value * 10 + ((c as u32) - 48) as u128;
        k = k + 1;
        assert(all_digits(d.take(k - start)));
        if value > limit {
            proof {
                if all_digits(d) {
                    lemma_digits_value_grows(d, k - start);
                }
            }
            return None;
        }
    }
    assert(d.take(k - start) =~= d);
    Some(value)
}

/// `s` parsed as an `i64`.
pub fn parse_i64_exec(s: &Vec<char>) -> (r: Option<i64>)
    ensures
        r == parse_i64(s@),
{
    let (negative, start) = if s.len() > 0 && s[0] == '-' {
        (true, 1)
    } else if s.len() > 0 && s[0] == '+' {
        (false, 1)
    } else {
        (false, 0)
    };
    assert(s@.subrange(start as int, s.len() as int) =~= sign_and_digits(s@, true).1);
    if start == s.len() {
        return None;
    }
    let limit: u128 = if negative {
        9223372036854775808
    } else {
        9223372036854775807
    };
    match digits_value_capped(s, start, limit) {
        None => None,
        Some(v) => {
            if negative {
                Some((0i128 - (v as i128)) as i64)
            } else {
                Some(v as i64)
            }
        },
    }
}

/// `s` parsed as a `u32`.
pub fn parse_u32_exec(s: &Vec<char>) -> (r: Option<u32>)
    ensures
        r == parse_u32(s@),
{
    let start: usize = if s.len() > 0 && s[0] == '+' {
        1
    } else {
        0
    };
    assert(s@.subrange(start as int, s.len() as int) =~= sign_and_digits(s@, false).1);
    if start == s.len() {
        return None;
    }
    match digits_value_capped(s, start, 4294967295) {
        None => None,
        Some(v) => Some(v as u32),
    }
}

} // verus!
