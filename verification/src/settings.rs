use vstd::prelude::*;

use crate::error::{is_bad_request, ApiError, ApiResult};
use crate::json::{json_shape, validate_json, JsonShape};
use crate::numbers::all_digits;
use crate::pagination::{page, page_number, page_size, page_size_number};
use crate::text::{
    ascii_lower, char_ascii_lower, char_is_ascii_digit, chars_of, is_ascii_digit, lowered, push_char,
    str_eq,
};

verus! {

/// What the API shows in place of a secret setting's value.
pub const SECRET_MASK: &'static str = "******";

#[derive(Debug)]
pub struct SettingQueryParams {
    pub page: Option<u64>,
    pub page_size: Option<u64>,
    pub keyword: Option<String>,
    pub group_key: Option<String>,
}

impl SettingQueryParams {
    pub fn page(&self) -> (p: u64)
        ensures
            p == page_number(self.page),
    {
        page(self.page)
    }

    pub fn page_size(&self) -> (s: u64)
        ensures
            s == page_size_number(self.page_size),
    {
        page_size(self.page_size)
    }
}

#[derive(Debug)]
pub struct SettingRecord {
    pub id: i32,
    pub key: String,
    pub name: String,
    pub group_key: String,
    pub value: String,
    pub value_type: String,
    pub default_value: Option<String>,
    pub description: Option<String>,
    pub is_public: bool,
    pub is_builtin: bool,
    pub is_encrypted: bool,
    pub sort_order: i32,
    pub created_by: Option<i32>,
    pub updated_by: Option<i32>,
    pub created_at: String,
    pub updated_at: String,
}

#[derive(Debug)]
pub struct SaveSettingParams {
    pub key: String,
    pub name: String,
    pub group_key: String,
    pub value: String,
    pub value_type: String,
    pub default_value: Option<String>,
    pub description: Option<String>,
    pub is_public: Option<bool>,
    pub is_builtin: Option<bool>,
    pub is_encrypted: Option<bool>,
    pub sort_order: Option<i32>,
}

/// The position of the first character of `s` that satisfies `p`, or the
/// length of `s` when none does.
pub open spec fn first_where(s: Seq<char>, p: spec_fn(char) -> bool) -> int
    decreases s.len(),
{
    if s.len() == 0 {
        0
    } else if p(s[0]) {
        0
    } else {
        1 + first_where(s.drop_first(), p)
    }
}

/// `first_where` finds the first match, or the length.
pub proof fn lemma_first_where(s: Seq<char>, p: spec_fn(char) -> bool, k: int)
    requires
        0 <= k <= s.len(),
        forall|j: int| 0 <= j < k ==> !p(#[trigger] s[j]),
        k < s.len() ==> p(s[k]),
    ensures
        first_where(s, p) == k,
    decreases s.len(),
{
    if s.len() > 0 && k > 0 {
        let t = s.drop_first();
        assert forall|j: int| 0 <= j < k - 1 implies !p(#[trigger] t[j]) by {
            assert(t[j] == s[j + 1]);
        }
        if k < s.len() {
            assert(t[k - 1] == s[k]);
        }
        lemma_first_where(t, p, k - 1);
    }
}

pub open spec fn exp_pred() -> spec_fn(char) -> bool {
    |c: char| c == 'e' || c == 'E'
}

pub open spec fn dot_pred() -> spec_fn(char) -> bool {
    |c: char| c == '.'
}

/// The digits of a decimal number: digits, with at most one `.` and at
/// least one digit.
pub open spec fn mantissa_text(m: Seq<char>) -> bool {
    let d = first_where(m, dot_pred());
    if d == m.len() {
        m.len() > 0 && all_digits(m)
    } else {
        all_digits(m.take(d)) && all_digits(m.skip(d + 1)) && (d > 0 || m.len() > d + 1)
    }
}

/// An exponent: `e` or `E`, an optional sign, and at least one digit.
pub open spec fn exponent_text(x: Seq<char>) -> bool {
    let y = x.drop_first();
    let z = if y.len() > 0 && (y[0] == '+' || y[0] == '-') {
        y.drop_first()
    } else {
        y
    };
    z.len() > 0 && all_digits(z)
}

/// A decimal number with an optional exponent.
pub open spec fn number_text(b: Seq<char>) -> bool {
    let k = first_where(b, exp_pred());
    mantissa_text(b.take(k)) && (k == b.len() || exponent_text(b.skip(k)))
}

/// What `str::parse::<f64>` accepts, as std documents it: an optional sign,
/// then "inf", "infinity" or "nan" in any case, or a decimal number with an
/// optional exponent; no surrounding whitespace.
pub open spec fn float_text(s: Seq<char>) -> bool {
    let b = if s.len() > 0 && (s[0] == '+' || s[0] == '-') {
        s.drop_first()
    } else {
        s
    };
    lowered(b) == "inf"@ || lowered(b) == "infinity"@ || lowered(b) == "nan"@ || number_text(b)
}

fn is_marker(c: char, exp: bool) -> (b: bool)
    ensures
        b == (if exp {
            exp_pred()
        } else {
            dot_pred()
        })(c),
{
    if exp {
        c == 'e' || c == 'E'
    } else {
        c == '.'
    }
}

/// The first position in `v[lo..hi]` of `e`/`E` (`exp`) or of `.` (not
/// `exp`), or `hi` when there is none.
fn first_marker(v: &Vec<char>, lo: usize, hi: usize, exp: bool) -> (k: usize)
    requires
        lo <= hi <= v.len(),
    ensures
        lo <= k <= hi,
        k - lo == first_where(
            v@.subrange(lo as int, hi as int),
            if exp {
                exp_pred()
            } else {
                dot_pred()
            },
        ),
{
    let ghost p = if exp {
        exp_pred()
    } else {
        dot_pred()
    };
    let mut i = lo;
    while i < hi && !is_marker(v[i], exp)
        invariant
            lo <= i <= hi <= v.len(),
            p == (if exp {
                exp_pred()
            } else {
                dot_pred()
            }),
            forall|j: int| lo <= j < i ==> !p(#[trigger] v@[j]),
        decreases hi - i,
    {
        i = i + 1;
    }
    proof {
        let s = v@.subrange(lo as int, hi as int);
        assert forall|j: int| 0 <= j < i - lo implies !p(#[trigger] s[j]) by {
            assert(s[j] == v@[lo + j]);
        }
        if i < hi {
            assert(s[i - lo] == v@[i as int]);
        }
        lemma_first_where(s, p, i - lo);
    }
    i
}

/// Whether `v[lo..hi]` holds only digits.
fn digits_in(v: &Vec<char>, lo: usize, hi: usize) -> (b: bool)
    requires
        lo <= hi <= v.len(),
    ensures
        b == all_digits(v@.subrange(lo as int, hi as int)),
{
    let mut i = lo;
    while i < hi
        invariant
            lo <= i <= hi <= v.len(),
            forall|j: int| lo <= j < i ==> is_ascii_digit(#[trigger] v@[j]),
        decreases hi - i,
    {
        if !char_is_ascii_digit(v[i]) {
            assert(v@.subrange(lo as int, hi as int)[i - lo] == v@[i as int]);
            return false;
        }
        i = i + 1;
    }
    assert forall|j: int| 0 <= j < hi - lo implies is_ascii_digit(
        #[trigger] v@.subrange(lo as int, hi as int)[j],
    ) by {
        assert(v@.subrange(lo as int, hi as int)[j] == v@[lo + j]);
    }
    true
}

/// Whether `v[lo..hi]` is the text of a decimal number with an optional
/// exponent.
fn number_in(v: &Vec<char>, lo: usize, hi: usize) -> (b: bool)
    requires
        lo <= hi <= v.len(),
    ensures
        b == number_text(v@.subrange(lo as int, hi as int)),
{
    let ghost body = v@.subrange(lo as int, hi as int);
    let k = first_marker(v, lo, hi, true);
    let ghost m = body.take(k - lo);
    assert(m =~= v@.subrange(lo as int, k as int));
    let d = first_marker(v, lo, k, false);
    let mantissa_ok = if d == k {
        k > lo && digits_in(v, lo, k)
    } else {
        assert(m.take(d - lo) =~= v@.subrange(lo as int, d as int));
        assert(m.skip(d - lo + 1) =~= v@.subrange(d + 1, k as int));
        digits_in(v, lo, d) && digits_in(v, d + 1, k) && (d > lo || k > d + 1)
    };
    if !mantissa_ok {
        return false;
    }
    if k == hi {
        return true;
    }
    let ghost x = body.skip(k - lo);
    assert(x =~= v@.subrange(k as int, hi as int));
    let mut start = k + 1;
    if start < hi && (v[start] == '+' || v[start] == '-') {
        start = start + 1;
    }
    proof {
        let y = x.drop_first();
        assert(y =~= v@.subrange(k + 1, hi as int));
        if y.len() > 0 && (y[0] == '+' || y[0] == '-') {
            assert(y.drop_first() =~= v@.subrange(start as int, hi as int));
        } else {
            assert(y =~= v@.subrange(start as int, hi as int));
        }
    }
    start < hi && digits_in(v, start, hi)
}

/// Whether `value` is accepted by `str::parse::<f64>` (see `float_text`).
pub fn is_float_text(value: &str) -> (b: bool)
    ensures
        b == float_text(value@),
{
    let v = chars_of(value);
    let lo: usize = if v.len() > 0 && (v[0] == '+' || v[0] == '-') {
        1
    } else {
        0
    };
    let ghost body = v@.subrange(lo as int, v@.len() as int);
    proof {
        if lo == 1 {
            assert(body =~= value@.drop_first());
        } else {
            assert(body =~= value@);
        }
    }
    let mut low = String::new();
    let mut i = lo;
    while i < v.len()
        invariant
            lo <= i <= v@.len(),
            low@ == lowered(v@.subrange(lo as int, i as int)),
        decreases v.len() - i,
    {
        push_char(&mut low, char_ascii_lower(v[i]));
        proof {
            assert(v@.subrange(lo as int, i + 1) =~= v@.subrange(lo as int, i as int).push(v@[i as int]));
            assert(lowered(v@.subrange(lo as int, i + 1)) =~= lowered(v@.subrange(lo as int, i as int)).push(
                ascii_lower(v@[i as int]),
            ));
        }
        i = i + 1;
    }
    if str_eq(low.as_str(), "inf") || str_eq(low.as_str(), "infinity") || str_eq(low.as_str(), "nan") {
        return true;
    }
    number_in(&v, lo, v.len())
}

/// Why a setting value does not fit its type, if it does not: strings and
/// secrets take anything, numbers must parse as `f64`, booleans are "true"
/// or "false", JSON must parse; other types are refused.
pub open spec fn setting_problem(value_type: Seq<char>, value: Seq<char>) -> Option<Seq<char>> {
    if value_type == "string"@ || value_type == "secret"@ {
        None
    } else if value_type == "number"@ {
        if float_text(value) {
            None
        } else {
            Some("setting value must be a number"@)
        }
    } else if value_type == "boolean"@ {
        if value == "true"@ || value == "false"@ {
            None
        } else {
            Some("setting value must be true or false"@)
        }
    } else if value_type == "json"@ {
        if json_shape(value) != JsonShape::Invalid {
            None
        } else {
            Some("setting value"@ + " must be valid json"@)
        }
    } else {
        Some("unsupported setting value type"@)
    }
}

/// Refuses a setting value as `setting_problem` says.
pub fn validate_setting(value_type: &str, value: &str) -> (r: ApiResult<()>)
    ensures
        r is Ok <==> setting_problem(value_type@, value@) is None,
        r matches Err(e) ==> setting_problem(value_type@, value@) matches Some(m) && is_bad_request(
            e,
            m,
        ),
{
    if str_eq(value_type, "string") || str_eq(value_type, "secret") {
        Ok(())
    } else if str_eq(value_type, "number") {
        if is_float_text(value) {
            Ok(())
        } else {
            Err(ApiError::bad_request("setting value must be a number"))
        }
    } else if str_eq(value_type, "boolean") {
        if str_eq(value, "true") || str_eq(value, "false") {
            Ok(())
        } else {
            Err(ApiError::bad_request("setting value must be true or false"))
        }
    } else if str_eq(value_type, "json") {
        validate_json("setting value", value)
    } else {
        Err(ApiError::bad_request("unsupported setting value type"))
    }
}

/// The value the API shows of a setting: the mask for a secret one.
pub open spec fn shown_value(value_type: Seq<char>, value: Seq<char>) -> Seq<char> {
    if value_type == "secret"@ {
        SECRET_MASK@
    } else {
        value
    }
}

/// The value the API shows of a setting (see `shown_value`).
pub fn shown_setting_value(value_type: &str, value: String) -> (r: String)
    ensures
        r@ == shown_value(value_type@, value@),
{
    if str_eq(value_type, "secret") {
        String::from_str(SECRET_MASK)
    } else {
        value
    }
}

/// The value an update stores: for a secret setting sent back as the mask,
/// the stored value stays; otherwise the new value, which must fit its type.
pub open spec fn setting_update(
    stored_type: Seq<char>,
    stored_value: Seq<char>,
    new_type: Seq<char>,
    new_value: Seq<char>,
) -> Result<Seq<char>, Seq<char>> {
    if stored_type == "secret"@ && new_value == SECRET_MASK@ {
        Ok(stored_value)
    } else {
        match setting_problem(new_type, new_value) {
            Some(m) => Err(m),
            None => Ok(new_value),
        }
    }
}

/// The value an update stores (see `setting_update`).
pub fn updated_setting_value(
    stored_type: &str,
    stored_value: String,
    new_type: &str,
    new_value: String,
) -> (r: ApiResult<String>)
    ensures
        match r {
            Ok(v) => setting_update(stored_type@, stored_value@, new_type@, new_value@) == Ok::<
                Seq<char>,
                Seq<char>,
            >(v@),
            Err(e) => setting_update(stored_type@, stored_value@, new_type@, new_value@) matches Err(m)
                && is_bad_request(e, m),
        },
        stored_type@ == "secret"@ && new_value@ == SECRET_MASK@ ==> r == Ok::<String, ApiError>(
            stored_value,
        ),
        !(stored_type@ == "secret"@ && new_value@ == SECRET_MASK@) ==> match r {
            Ok(v) => v == new_value && setting_problem(new_type@, new_value@) is None,
            Err(e) => setting_problem(new_type@, new_value@) matches Some(m) && is_bad_request(e, m),
        },
{
    if str_eq(stored_type, "secret") && str_eq(new_value.as_str(), SECRET_MASK) {
        return Ok(stored_value);
    }
    match validate_setting(new_type, new_value.as_str()) {
        Ok(()) => Ok(new_value),
        Err(e) => Err(e),
    }
}

/// A builtin setting cannot be deleted.
pub fn check_setting_delete(is_builtin: bool) -> (r: ApiResult<()>)
    ensures
        r is Ok <==> !is_builtin,
        r matches Err(e) ==> is_bad_request(e, "builtin setting cannot be deleted"@),
{
    if is_builtin {
        Err(ApiError::bad_request("builtin setting cannot be deleted"))
    } else {
        Ok(())
    }
}


/// Law: a secret setting sent back as the API shows it keeps its stored
/// value, whatever type the update names.
pub proof fn law_shown_secret_setting_keeps_stored(stored_value: Seq<char>, new_type: Seq<char>)
    ensures
        setting_update("secret"@, stored_value, new_type, shown_value("secret"@, stored_value))
            == Ok::<Seq<char>, Seq<char>>(stored_value),
{
}

} // verus!
