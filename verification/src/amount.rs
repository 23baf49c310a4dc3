use vstd::prelude::*;

use crate::error::{is_bad_request, ApiError, ApiResult};
use crate::numbers::{
    all_digits, decimal_capped, decimal_value, digit_value, lemma_decimal_take_step,
};
use crate::text::{
    chars_of, char_is_ascii_digit, is_ascii_digit, is_whitespace, lemma_strip_end_is_prefix,
    lemma_strip_start_is_suffix, push_char, string_of_range, strip_end, strip_start, trim,
    trim_seq, ws_pred,
};

verus! {

/// The index of the first `c` in `s`, or -1.
pub open spec fn first_index(s: Seq<char>, c: char) -> int
    decreases s.len(),
{
    if s.len() == 0 {
        -1
    } else if s[0] == c {
        0
    } else {
        let k = first_index(s.drop_first(), c);
        if k < 0 {
            -1
        } else {
            k + 1
        }
    }
}

/// `first_index` finds the first occurrence, or none.
pub proof fn lemma_first_index(s: Seq<char>, c: char)
    ensures
        -1 <= first_index(s, c) < s.len(),
        first_index(s, c) >= 0 ==> s[first_index(s, c)] == c,
        forall|j: int| 0 <= j < s.len() && (first_index(s, c) < 0 || j < first_index(s, c)) ==> s[j]
            != c,
    decreases s.len(),
{
    if s.len() > 0 && s[0] != c {
        let t = s.drop_first();
        lemma_first_index(t, c);
        assert forall|j: int|
            0 <= j < s.len() && (first_index(s, c) < 0 || j < first_index(s, c)) implies s[j]
            != c by {
            if j > 0 {
                assert(s[j] == t[j - 1]);
            }
        }
    }
}

/// A sequence whose first `k` characters are not `c` and whose `k`-th is `c`
/// has its first `c` at `k`.
pub proof fn lemma_first_index_at(s: Seq<char>, c: char, k: int)
    requires
        0 <= k <= s.len(),
        forall|j: int| 0 <= j < k ==> s[j] != c,
        k < s.len() ==> s[k] == c,
    ensures
        first_index(s, c) == if k < s.len() {
            k
        } else {
            -1
        },
{
    lemma_first_index(s, c);
}

/// `s.split_once(c)`, with `(s, "")` when `c` does not occur.
pub open spec fn split_once(s: Seq<char>, c: char) -> (Seq<char>, Seq<char>) {
    let k = first_index(s, c);
    if k >= 0 {
        (s.take(k), s.skip(k + 1))
    } else {
        (s, Seq::empty())
    }
}

/// The cents that a fraction of at most two digits writes ("5" is 50 cents).
pub open spec fn fraction_cents(f: Seq<char>) -> nat {
    if f.len() == 0 {
        0
    } else if f.len() == 1 {
        digit_value(f[0]) * 10
    } else {
        digit_value(f[0]) * 10 + digit_value(f[1])
    }
}

/// Holds when the trimmed text `t` is a non-negative decimal with at most two
/// fraction digits, in the syntax that the payment module accepts.
pub open spec fn decimal_amount_syntax(t: Seq<char>) -> bool {
    let (whole, fraction) = split_once(t, '.');
    &&& t.len() > 0
    &&& t[0] != '-'
    &&& whole.len() > 0
    &&& all_digits(whole)
    &&& all_digits(fraction)
    &&& fraction.len() <= 2
}

/// The number of cents that the trimmed text `t` writes.
pub open spec fn amount_cents(t: Seq<char>) -> nat {
    let (whole, fraction) = split_once(t, '.');
    decimal_value(whole) * 100 + fraction_cents(fraction)
}

/// Why an amount text is refused.
#[derive(Debug)]
pub enum AmountProblem {
    NotPositiveDecimal,
    TooLarge,
    Zero,
}

pub open spec fn amount_problem_message(p: AmountProblem) -> Seq<char> {
    match p {
        AmountProblem::NotPositiveDecimal => "amount must be a positive decimal"@,
        AmountProblem::TooLarge => "amount is too large"@,
        AmountProblem::Zero => "amount must be greater than zero"@,
    }
}

/// What `parse_amount` gives for `value`: its cents, or why it is refused.
pub open spec fn parse_amount_spec(value: Seq<char>) -> Result<int, AmountProblem> {
    let t = trim_seq(value);
    if !decimal_amount_syntax(t) {
        Err(AmountProblem::NotPositiveDecimal)
    } else if amount_cents(t) > i64::MAX {
        Err(AmountProblem::TooLarge)
    } else if amount_cents(t) == 0 {
        Err(AmountProblem::Zero)
    } else {
        Ok(amount_cents(t) as int)
    }
}

/// `fraction` padded on the right with `0` to two digits.
pub open spec fn pad_fraction(f: Seq<char>) -> Seq<char> {
    if f.len() == 0 {
        seq!['0', '0']
    } else if f.len() == 1 {
        f.push('0')
    } else {
        f
    }
}

/// The canonical text of a valid amount: its whole part, a dot and two
/// fraction digits.
pub open spec fn normalized_amount(t: Seq<char>) -> Seq<char> {
    let (whole, fraction) = split_once(t, '.');
    whole + seq!['.'] + pad_fraction(fraction)
}

/// The result of parsing the amount text: the dot's position and whether
/// the syntax holds.
#[verifier::loop_isolation(false)]
fn amount_syntax(v: &Vec<char>) -> (r: (usize, usize, bool))
    ensures
        r.0 <= r.1 <= v.len(),
        r.2 == decimal_amount_syntax(v@),
        r.2 ==> split_once(v@, '.').0 == v@.subrange(0, r.0 as int),
        r.2 ==> split_once(v@, '.').1 == v@.subrange(r.1 as int, v@.len() as int),
{
    let n = v.len();
    let mut k: usize = 0;
    while k < n && v[k] != '.'
        invariant
            k <= n == v.len(),
            forall|j: int| 0 <= j < k ==> v@[j] != '.',
        decreases n - k,
    {
        k = k + 1;
    }
    proof {
        lemma_first_index_at(v@, '.', k as int);
    }
    let frac_start = if k < n {
        k + 1
    } else {
        n
    };
    let ghost whole = v@.subrange(0, k as int);
    let ghost fraction = v@.subrange(frac_start as int, n as int);
    assert(split_once(v@, '.').0 =~= whole);
    assert(split_once(v@, '.').1 =~= fraction);
    if n == 0 || v[0] == '-' || k == 0 {
        return (k, frac_start, false);
    }
    let mut i: usize = 0;
    while i < k
        invariant
            i <= k <= n == v.len(),
            forall|j: int| 0 <= j < i ==> is_ascii_digit(#[trigger] v@[j]),
        decreases k - i,
    {
        if !char_is_ascii_digit(v[i]) {
            assert(whole[i as int] == v@[i as int]);
            return (k, frac_start, false);
        }
        i = i + 1;
    }
    assert forall|j: int| 0 <= j < whole.len() implies is_ascii_digit(#[trigger] whole[j]) by {
        assert(whole[j] == v@[j]);
    }
    let mut i: usize = frac_start;
    while i < n
        invariant
            frac_start <= i <= n == v.len(),
            forall|j: int| frac_start <= j < i ==> is_ascii_digit(#[trigger] v@[j]),
        decreases n - i,
    {
        if !char_is_ascii_digit(v[i]) {
            assert(fraction[i - frac_start] == v@[i as int]);
            return (k, frac_start, false);
        }
        i = i + 1;
    }
    assert forall|j: int| 0 <= j < fraction.len() implies is_ascii_digit(#[trigger] fraction[j]) by {
        assert(fraction[j] == v@[j + frac_start]);
    }
    (k, frac_start, n - frac_start <= 2)
}

/// The cents that an amount text writes: a decimal with at most two fraction
/// digits, greater than zero and at most `i64::MAX` cents.
pub fn parse_amount(value: &str) -> (r: ApiResult<i64>)
    ensures
        match r {
            Ok(n) => parse_amount_spec(value@) == Ok::<int, AmountProblem>(n as int),
            Err(e) => parse_amount_spec(value@) matches Err(p) && is_bad_request(
                e,
                amount_problem_message(p),
            ),
        },
{
    let t = trim(value);
    let v = chars_of(t.as_str());
    let (k, frac_start, ok) = amount_syntax(&v);
    if !ok {
        return Err(ApiError::bad_request("amount must be a positive decimal"));
    }
    let ghost whole = v@.subrange(0, k as int);
    let ghost fraction = v@.subrange(frac_start as int, v@.len() as int);
    let whole_value = match decimal_capped(&v, 0, k, 92_233_720_368_547_758) {
        Some(w) => w,
        None => {
            return Err(ApiError::bad_request("amount is too large"));
        },
    };
    let n = v.len();
    let mut frac: u64 = 0;
    if n - frac_start >= 1 {
        assert(is_ascii_digit(fraction[0]));
        frac = ((v[frac_start] as u32) - ('0' as u32)) as u64 * 10;
    }
    if n - frac_start == 2 {
        assert(is_ascii_digit(fraction[1]));
        frac = frac + ((v[frac_start + 1] as u32) - ('0' as u32)) as u64;
    }
    assert(frac == fraction_cents(fraction));
    let cents: u64 = whole_value * 100 + frac;
    if cents > 0x7FFF_FFFF_FFFF_FFFF {
        return Err(ApiError::bad_request("amount is too large"));
    }
    if cents == 0 {
        return Err(ApiError::bad_request("amount must be greater than zero"));
    }
    Ok(cents as i64)
}

/// The canonical text of an amount (`"12.5"` gives `"12.50"`, `"7"` gives
/// `"7.00"`), after the checks of `parse_amount`.
pub fn normalize_amount(value: &str) -> (r: ApiResult<String>)
    ensures
        match r {
            Ok(s) => parse_amount_spec(value@) is Ok && s@ == normalized_amount(trim_seq(value@)),
            Err(e) => parse_amount_spec(value@) matches Err(p) && is_bad_request(
                e,
                amount_problem_message(p),
            ),
        },
{
    let _ = parse_amount(value)?;
    let t = trim(value);
    let v = chars_of(t.as_str());
    let (k, frac_start, _ok) = amount_syntax(&v);
    let n = v.len();
    let mut s = string_of_range(&v, 0, k);
    push_char(&mut s, '.');
    let ghost fraction = v@.subrange(frac_start as int, n as int);
    if n - frac_start == 0 {
        push_char(&mut s, '0');
        push_char(&mut s, '0');
    } else if n - frac_start == 1 {
        push_char(&mut s, v[frac_start]);
        push_char(&mut s, '0');
        assert(fraction.push('0') =~= seq![v@[frac_start as int], '0']);
    } else {
        push_char(&mut s, v[frac_start]);
        push_char(&mut s, v[frac_start + 1]);
        assert(fraction =~= seq![v@[frac_start as int], v@[frac_start + 1]]);
    }
    assert(s@ =~= normalized_amount(trim_seq(value@)));
    Ok(s)
}

/// A sequence that neither starts nor ends with whitespace is its own trim.
pub proof fn lemma_trim_of_unpadded(s: Seq<char>)
    requires
        s.len() > 0 ==> !is_whitespace(s[0]) && !is_whitespace(s.last()),
    ensures
        trim_seq(s) == s,
{
    let p = ws_pred();
    assert(strip_start(s, p) == s);
    assert(strip_end(s, p) == s);
}

/// Law: the canonical text of a valid amount writes the same number of cents,
/// and is itself valid.
pub proof fn law_normalized_amount_keeps_cents(value: Seq<char>)
    requires
        parse_amount_spec(value) is Ok,
    ensures
        parse_amount_spec(normalized_amount(trim_seq(value))) == parse_amount_spec(value),
{
    let t = trim_seq(value);
    let (whole, fraction) = split_once(t, '.');
    let f2 = pad_fraction(fraction);
    let m = normalized_amount(t);
    lemma_first_index(t, '.');
    // The whole part holds no dot, so the first dot of `m` is the one after it.
    assert forall|j: int| 0 <= j < whole.len() implies m[j] != '.' by {
        assert(m[j] == whole[j]);
        assert(is_ascii_digit(whole[j]));
    }
    assert(m[whole.len() as int] == '.');
    lemma_first_index_at(m, '.', whole.len() as int);
    assert(m.take(whole.len() as int) =~= whole);
    assert(m.skip(whole.len() as int + 1) =~= f2);
    assert(all_digits(f2)) by {
        if fraction.len() == 1 {
            assert(f2[0] == fraction[0]);
        }
    }
    assert(fraction_cents(f2) == fraction_cents(fraction));
    // `m` starts with a digit and ends with a digit, so trimming keeps it.
    assert(is_ascii_digit(m[0]));
    assert(is_ascii_digit(m.last())) by {
        assert(m.last() == f2.last());
    }
    lemma_trim_of_unpadded(m);
    assert(split_once(m, '.') == (whole, f2));
}

/// Law: normalizing an amount twice gives what normalizing it once gives.
pub proof fn law_normalize_amount_idempotent(value: Seq<char>)
    requires
        parse_amount_spec(value) is Ok,
    ensures
        normalized_amount(trim_seq(normalized_amount(trim_seq(value)))) == normalized_amount(
            trim_seq(value),
        ),
{
    law_normalized_amount_keeps_cents(value);
    let t = trim_seq(value);
    let (whole, fraction) = split_once(t, '.');
    let m = normalized_amount(t);
    // From the proof above: m is its own trim and splits into (whole, padded fraction).
    lemma_first_index(t, '.');
    assert forall|j: int| 0 <= j < whole.len() implies m[j] != '.' by {
        assert(m[j] == whole[j]);
        assert(is_ascii_digit(whole[j]));
    }
    lemma_first_index_at(m, '.', whole.len() as int);
    assert(m.take(whole.len() as int) =~= whole);
    assert(m.skip(whole.len() as int + 1) =~= pad_fraction(fraction));
    assert(is_ascii_digit(m[0]));
    lemma_trim_of_unpadded(m);
    assert(pad_fraction(pad_fraction(fraction)) == pad_fraction(fraction));
}

} // verus!
