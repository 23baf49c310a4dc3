use vstd::prelude::*;

use crate::error::{is_bad_request, ApiError, ApiResult};
use crate::text::{chars_of, is_ascii_digit, char_is_ascii_digit};

verus! {

/// The value of an ASCII digit.
pub open spec fn digit_value(c: char) -> nat {
    ((c as u32) - ('0' as u32)) as nat
}

/// Holds when every character of `s` is an ASCII digit.
pub open spec fn all_digits(s: Seq<char>) -> bool {
    forall|i: int| 0 <= i < s.len() ==> is_ascii_digit(#[trigger] s[i])
}

/// The number that the decimal digits `s` write (0 for no digits).
pub open spec fn decimal_value(s: Seq<char>) -> nat
    decreases s.len(),
{
    if s.len() == 0 {
        0
    } else {
        decimal_value(s.drop_last()) * 10 + digit_value(s.last())
    }
}

/// Reading one more digit multiplies the value by ten and adds the digit.
pub proof fn lemma_decimal_take_step(s: Seq<char>, i: int)
    requires
        0 <= i < s.len(),
    ensures
        decimal_value(s.take(i + 1)) == decimal_value(s.take(i)) * 10 + digit_value(s[i]),
{
    assert(s.take(i + 1).drop_last() =~= s.take(i));
}

/// A longer run of digits never writes a smaller number than its prefix.
pub proof fn lemma_decimal_prefix_le(s: Seq<char>, i: int)
    requires
        0 <= i <= s.len(),
    ensures
        decimal_value(s.take(i)) <= decimal_value(s),
    decreases s.len() - i,
{
    if i < s.len() {
        lemma_decimal_take_step(s, i);
        lemma_decimal_prefix_le(s, i + 1);
    } else {
        assert(s.take(i) =~= s);
    }
}

/// `decimal_value` of `v[lo..hi]`, when it is at most `cap`; `None` when it
/// is larger.
pub fn decimal_capped(v: &Vec<char>, lo: usize, hi: usize, cap: u64) -> (r: Option<u64>)
    requires
        lo <= hi <= v.len(),
        all_digits(v@.subrange(lo as int, hi as int)),
    ensures
        match r {
            Some(n) => n == decimal_value(v@.subrange(lo as int, hi as int)) && n <= cap,
            None => decimal_value(v@.subrange(lo as int, hi as int)) > cap,
        },
{
    let ghost s = v@.subrange(lo as int, hi as int);
    let mut acc: u128 = 0;
    let mut i = lo;
    assert(s.take(0) =~= Seq::<char>::empty());
    while i < hi
        invariant
            lo <= i <= hi <= v.len(),
            s == v@.subrange(lo as int, hi as int),
            all_digits(s),
            acc == decimal_value(s.take(i - lo)),
            acc <= cap,
        decreases hi - i,
    {
        let c = v[i];
        assert(s[i - lo] == c);
        assert(is_ascii_digit(s[i - lo]));
        let d = ((c as u32) - ('0' as u32)) as u128;
        proof {
            lemma_decimal_take_step(s, i - lo);
        }
        let next = acc * 10 + d;
        if next > cap as u128 {
            proof {
                lemma_decimal_prefix_le(s, i - lo + 1);
            }
            return None;
        }
        acc = next;
        i = i + 1;
    }
    assert(s.take(hi - lo) =~= s);
    Some(acc as u64)
}

/// How `FromStr` for an integer type splits `s`: the sign, then the digits.
/// A sign alone is refused; `-` is a sign only where negatives are allowed.
pub open spec fn int_text_parts(s: Seq<char>, signed: bool) -> (bool, Seq<char>) {
    if s.len() > 0 && (s[0] == '+' || (signed && s[0] == '-')) {
        (s[0] == '-', s.drop_first())
    } else {
        (false, s)
    }
}

/// The integer that `s` writes in the syntax of `FromStr` for integer types
/// (an optional sign, then one or more ASCII digits), or `None`.
pub open spec fn int_text_value(s: Seq<char>, signed: bool) -> Option<int> {
    let (negative, digits) = int_text_parts(s, signed);
    if digits.len() > 0 && all_digits(digits) {
        Some(
            if negative {
                -(decimal_value(digits) as int)
            } else {
                decimal_value(digits) as int
            },
        )
    } else {
        None
    }
}

/// What `<u32 as FromStr>::from_str` gives for `s`.
pub open spec fn u32_text_value(s: Seq<char>) -> Option<u32> {
    match int_text_value(s, false) {
        Some(n) => if n <= u32::MAX {
            Some(n as u32)
        } else {
            None
        },
        None => None,
    }
}

/// What `<i32 as FromStr>::from_str` gives for `s`.
pub open spec fn i32_text_value(s: Seq<char>) -> Option<i32> {
    match int_text_value(s, true) {
        Some(n) => if i32::MIN <= n <= i32::MAX {
            Some(n as i32)
        } else {
            None
        },
        None => None,
    }
}

/// What `<u64 as FromStr>::from_str` gives for `s`.
pub open spec fn u64_text_value(s: Seq<char>) -> Option<u64> {
    match int_text_value(s, false) {
        Some(n) => if n <= u64::MAX {
            Some(n as u64)
        } else {
            None
        },
        None => None,
    }
}

/// Checks the digits after an optional sign; returns the sign, the start of
/// the digits and their value when it is at most `cap`.
fn split_int_text(v: &Vec<char>, signed: bool, cap: u64) -> (r: Option<(bool, u64)>)
    ensures
        ({
            let (negative, digits) = int_text_parts(v@, signed);
            match r {
                Some((neg, n)) => neg == negative && digits.len() > 0 && all_digits(digits) && n
                    == decimal_value(digits) && n <= cap,
                None => !(digits.len() > 0 && all_digits(digits)) || decimal_value(digits) > cap,
            }
        }),
{
    let negative;
    let start: usize;
    if v.len() > 0 && (v[0] == '+' || (signed && v[0] == '-')) {
        negative = v[0] == '-';
        start = 1;
        assert(v@.drop_first() =~= v@.subrange(1, v@.len() as int));
    } else {
        negative = false;
        start = 0;
        assert(v@ =~= v@.subrange(0, v@.len() as int));
    }
    let ghost digits = v@.subrange(start as int, v@.len() as int);
    assert(int_text_parts(v@, signed).1 == digits);
    if start == v.len() {
        return None;
    }
    let mut i = start;
    while i < v.len()
        invariant
            start <= i <= v.len(),
            digits == v@.subrange(start as int, v@.len() as int),
            int_text_parts(v@, signed).1 == digits,
            forall|k: int| start <= k < i ==> is_ascii_digit(#[trigger] v@[k]),
        decreases v.len() - i,
    {
        if !char_is_ascii_digit(v[i]) {
            assert(digits[i - start] == v@[i as int]);
            assert(!is_ascii_digit(digits[i - start]));
            assert(!all_digits(digits));
            return None;
        }
        i = i + 1;
    }
    assert forall|k: int| 0 <= k < digits.len() implies is_ascii_digit(#[trigger] digits[k]) by {
        assert(digits[k] == v@[k + start]);
    }
    match decimal_capped(v, start, v.len(), cap) {
        Some(n) => Some((negative, n)),
        None => None,
    }
}

/// `value.parse::<u32>()`, failing with the bad request `"invalid <field>"`.
pub fn parse_u32(value: &str, field: &str) -> (r: ApiResult<u32>)
    ensures
        match r {
            Ok(n) => u32_text_value(value@) == Some(n),
            Err(e) => u32_text_value(value@) is None && is_bad_request(
                e,
                "invalid "@ + field@,
            ),
        },
{
    let v = chars_of(value);
    match split_int_text(&v, false, 0xFFFF_FFFF) {
        Some((_, n)) => Ok(n as u32),
        None => Err(ApiError::bad_request_field("invalid ", field)),
    }
}

/// `value.parse::<u64>()`, as an `Option`.
pub fn parse_u64(value: &str) -> (r: Option<u64>)
    ensures
        r == u64_text_value(value@),
{
    let v = chars_of(value);
    match split_int_text(&v, false, 0xFFFF_FFFF_FFFF_FFFF) {
        Some((_, n)) => Some(n),
        None => None,
    }
}

/// `value.parse::<i32>()`, failing with the bad request `"invalid <field>"`.
pub fn parse_i32(value: &str, field: &str) -> (r: ApiResult<i32>)
    ensures
        match r {
            Ok(n) => i32_text_value(value@) == Some(n),
            Err(e) => i32_text_value(value@) is None && is_bad_request(
                e,
                "invalid "@ + field@,
            ),
        },
{
    let v = chars_of(value);
    match split_int_text(&v, true, 0x8000_0000) {
        Some((negative, n)) => {
            if negative {
                Ok((0 - (n as i64)) as i32)
            } else if n <= 0x7FFF_FFFF {
                Ok(n as i32)
            } else {
                Err(ApiError::bad_request_field("invalid ", field))
            }
        },
        None => Err(ApiError::bad_request_field("invalid ", field)),
    }
}

} // verus!

verus! {

/// The ASCII digit for `d < 10`.
pub open spec fn digit_char(d: nat) -> char {
    ((d + 48) as u32) as char
}

/// The decimal text of `n`, without leading zeros ("0" for zero).
pub open spec fn decimal_text(n: nat) -> Seq<char>
    decreases n,
{
    if n < 10 {
        seq![digit_char(n)]
    } else {
        decimal_text(n / 10).push(digit_char(n % 10))
    }
}

/// The text that `Display` writes for the integer `n`.
pub open spec fn int_text(n: int) -> Seq<char> {
    if n < 0 {
        seq!['-'] + decimal_text((-n) as nat)
    } else {
        decimal_text(n as nat)
    }
}

/// The decimal text of `n`.
pub fn decimal_string(n: u64) -> (s: String)
    ensures
        s@ == decimal_text(n as nat),
    decreases n,
{
    if n < 10 {
        let mut s = String::new();
        crate::text::push_char(&mut s, crate::text::char_from_ascii((n + 48) as u32));
        assert(s@ =~= decimal_text(n as nat));
        s
    } else {
        let mut s = decimal_string(n / 10);
        crate::text::push_char(&mut s, crate::text::char_from_ascii((n % 10 + 48) as u32));
        s
    }
}

/// `n.to_string()` for an `i32`.
pub fn i32_string(n: i32) -> (s: String)
    ensures
        s@ == int_text(n as int),
{
    if n < 0 {
        let m = (0 - (n as i64)) as u64;
        let mut s = String::new();
        crate::text::push_char(&mut s, '-');
        let digits = decimal_string(m);
        let s = s.concat(digits.as_str());
        assert(s@ =~= int_text(n as int));
        s
    } else {
        decimal_string(n as u64)
    }
}

} // verus!
