use vstd::prelude::*;

use crate::error::{is_bad_request, ApiError, ApiResult};

verus! {

// ---------------------------------------------------------------------------
// Character classes
// ---------------------------------------------------------------------------

/// Unicode `White_Space`, the class that `char::is_whitespace` tests.
pub open spec fn is_whitespace(c: char) -> bool {
    let u = c as u32;
    ||| 0x09 <= u <= 0x0D
    ||| u == 0x20
    ||| u == 0x85
    ||| u == 0xA0
    ||| u == 0x1680
    ||| 0x2000 <= u <= 0x200A
    ||| u == 0x2028
    ||| u == 0x2029
    ||| u == 0x202F
    ||| u == 0x205F
    ||| u == 0x3000
}

/// Unicode general category `Cc`, the class that `char::is_control` tests.
pub open spec fn is_control(c: char) -> bool {
    let u = c as u32;
    u <= 0x1F || (0x7F <= u && u <= 0x9F)
}

pub open spec fn is_ascii_digit(c: char) -> bool {
    '0' <= c && c <= '9'
}

pub open spec fn is_ascii_lower(c: char) -> bool {
    'a' <= c && c <= 'z'
}

pub open spec fn is_ascii_upper(c: char) -> bool {
    'A' <= c && c <= 'Z'
}

pub open spec fn is_ascii_alphanumeric(c: char) -> bool {
    is_ascii_digit(c) || is_ascii_lower(c) || is_ascii_upper(c)
}

/// The ASCII lower-case form of `c` (other characters are kept).
pub open spec fn ascii_lower(c: char) -> char {
    if is_ascii_upper(c) {
        ((c as u32) + 32) as char
    } else {
        c
    }
}

/// `s` in ASCII lower case (`str::to_ascii_lowercase`).
pub open spec fn lowered(s: Seq<char>) -> Seq<char> {
    s.map_values(|c: char| ascii_lower(c))
}

/// Whether `c` is whitespace (see `is_whitespace`).
pub fn char_is_whitespace(c: char) -> (b: bool)
    ensures
        b == is_whitespace(c),
{
    let u = c as u32;
    (0x09 <= u && u <= 0x0D) || u == 0x20 || u == 0x85 || u == 0xA0 || u == 0x1680 || (0x2000
        <= u && u <= 0x200A) || u == 0x2028 || u == 0x2029 || u == 0x202F || u == 0x205F || u
        == 0x3000
}

/// Whether `c` is a control character (see `is_control`).
pub fn char_is_control(c: char) -> (b: bool)
    ensures
        b == is_control(c),
{
    let u = c as u32;
    u <= 0x1F || (0x7F <= u && u <= 0x9F)
}

/// Whether `c` is an ASCII digit.
pub fn char_is_ascii_digit(c: char) -> (b: bool)
    ensures
        b == is_ascii_digit(c),
{
    '0' <= c && c <= '9'
}

/// Whether `c` is an ASCII letter or digit.
pub fn char_is_ascii_alphanumeric(c: char) -> (b: bool)
    ensures
        b == is_ascii_alphanumeric(c),
{
    ('0' <= c && c <= '9') || ('a' <= c && c <= 'z') || ('A' <= c && c <= 'Z')
}

/// `c` in ASCII lower case.
pub fn char_ascii_lower(c: char) -> (r: char)
    ensures
        r == ascii_lower(c),
{
    if 'A' <= c && c <= 'Z' {
        let u = (c as u32) + 32;
        assert(0x61 <= u <= 0x7A);
        proof {
            assert(u == (c as u32) + 32);
        }
        char_from_ascii(u)
    } else {
        c
    }
}

/// The character of an ASCII code point.
pub fn char_from_ascii(u: u32) -> (c: char)
    requires
        u < 128,
    ensures
        c as u32 == u,
        c == u as char,
{
    let b = u as u8;
    let c = b as char;
    c
}

// ---------------------------------------------------------------------------
// Trimming
// ---------------------------------------------------------------------------

/// The predicate "is Unicode whitespace", as a value.
pub open spec fn ws_pred() -> spec_fn(char) -> bool {
    |c: char| is_whitespace(c)
}

/// The predicate "is the character `target`", as a value.
pub open spec fn char_pred(target: char) -> spec_fn(char) -> bool {
    |c: char| c == target
}

/// `s` without its leading characters that satisfy `p`.
pub open spec fn strip_start(s: Seq<char>, p: spec_fn(char) -> bool) -> Seq<char>
    decreases s.len(),
{
    if s.len() > 0 && p(s[0]) {
        strip_start(s.drop_first(), p)
    } else {
        s
    }
}

/// `s` without its trailing characters that satisfy `p`.
pub open spec fn strip_end(s: Seq<char>, p: spec_fn(char) -> bool) -> Seq<char>
    decreases s.len(),
{
    if s.len() > 0 && p(s.last()) {
        strip_end(s.drop_last(), p)
    } else {
        s
    }
}

/// What `str::trim` gives: `s` without leading and trailing whitespace.
pub open spec fn trim_seq(s: Seq<char>) -> Seq<char> {
    strip_end(strip_start(s, ws_pred()), ws_pred())
}

/// `s` without every leading and trailing `c` (`str::trim_matches(c)`).
pub open spec fn trim_char_seq(s: Seq<char>, c: char) -> Seq<char> {
    strip_end(strip_start(s, char_pred(c)), char_pred(c))
}

/// Holds when `t` is blank: only whitespace.
pub open spec fn is_blank_seq(s: Seq<char>) -> bool {
    trim_seq(s).len() == 0
}

/// Stripping from the start skips one matching character at a time.
pub proof fn lemma_strip_start_step(s: Seq<char>, i: int, p: spec_fn(char) -> bool)
    requires
        0 <= i < s.len(),
        p(s[i]),
    ensures
        strip_start(s.subrange(i, s.len() as int), p) == strip_start(
            s.subrange(i + 1, s.len() as int),
            p,
        ),
{
    assert(s.subrange(i, s.len() as int).drop_first() =~= s.subrange(i + 1, s.len() as int));
}

/// Stripping from the end drops one matching character at a time.
pub proof fn lemma_strip_end_step(s: Seq<char>, j: int, p: spec_fn(char) -> bool)
    requires
        0 < j <= s.len(),
        p(s[j - 1]),
    ensures
        strip_end(s.subrange(0, j), p) == strip_end(s.subrange(0, j - 1), p),
{
    assert(s.subrange(0, j).drop_last() =~= s.subrange(0, j - 1));
}

/// Stripping leading characters leaves a suffix of the input sequence.
pub proof fn lemma_strip_start_is_suffix(s: Seq<char>, p: spec_fn(char) -> bool)
    ensures
        strip_start(s, p).len() <= s.len(),
        strip_start(s, p) =~= s.subrange(s.len() - strip_start(s, p).len(), s.len() as int),
        strip_start(s, p).len() > 0 ==> !p(strip_start(s, p)[0]),
        forall|k: int| 0 <= k < s.len() - strip_start(s, p).len() ==> p(#[trigger] s[k]),
    decreases s.len(),
{
    if s.len() > 0 && p(s[0]) {
        let t = s.drop_first();
        lemma_strip_start_is_suffix(t, p);
        assert forall|k: int| 0 <= k < s.len() - strip_start(s, p).len() implies p(
            #[trigger] s[k],
        ) by {
            if k > 0 {
                assert(s[k] == t[k - 1]);
            }
        }
    }
}

/// Stripping trailing characters leaves a prefix of the original sequence.
pub proof fn lemma_strip_end_is_prefix(s: Seq<char>, p: spec_fn(char) -> bool)
    ensures
        strip_end(s, p).len() <= s.len(),
        strip_end(s, p) =~= s.subrange(0, strip_end(s, p).len() as int),
        strip_end(s, p).len() > 0 ==> !p(strip_end(s, p).last()),
        forall|k: int| strip_end(s, p).len() <= k < s.len() ==> p(#[trigger] s[k]),
    decreases s.len(),
{
    if s.len() > 0 && p(s.last()) {
        let t = s.drop_last();
        lemma_strip_end_is_prefix(t, p);
        assert forall|k: int| strip_end(s, p).len() <= k < s.len() implies p(#[trigger] s[k]) by {
            if k < s.len() - 1 {
                assert(s[k] == t[k]);
            }
        }
    }
}

/// Stripping is idempotent.
pub proof fn lemma_strip_idempotent(s: Seq<char>, p: spec_fn(char) -> bool)
    ensures
        strip_start(strip_start(s, p), p) == strip_start(s, p),
        strip_end(strip_end(s, p), p) == strip_end(s, p),
{
    lemma_strip_start_is_suffix(s, p);
    lemma_strip_end_is_prefix(s, p);
}

/// Nothing is stripped from a sequence whose ends do not match.
pub proof fn lemma_strip_nothing(s: Seq<char>, p: spec_fn(char) -> bool)
    requires
        s.len() > 0 ==> !p(s[0]) && !p(s.last()),
    ensures
        strip_start(s, p) == s,
        strip_end(s, p) == s,
{
}

/// Trimming removes nothing more from an already trimmed sequence.
pub proof fn lemma_trim_idempotent(s: Seq<char>)
    ensures
        trim_seq(trim_seq(s)) == trim_seq(s),
{
    let p = ws_pred();
    let a = strip_start(s, p);
    let t = strip_end(a, p);
    lemma_strip_start_is_suffix(s, p);
    lemma_strip_end_is_prefix(a, p);
    // t starts with a non-whitespace character (or is empty), so nothing more is stripped.
    if t.len() > 0 {
        assert(t[0] == a[0]);
    }
    assert(strip_start(t, p) == t);
    lemma_strip_idempotent(a, p);
}

/// The characters of `s`, in order.
pub fn chars_of(s: &str) -> (v: Vec<char>)
    ensures
        v@ == s@,
{
    let mut v: Vec<char> = Vec::new();
    for c in it: s.chars()
        invariant
            it.seq() == s@,
            v@ == it.seq().take(it.index() as int),
    {
        v.push(c);
        assert(v@ =~= it.seq().take(it.index() as int + 1));
    }
    assert(v@ =~= s@);
    v
}

/// Appends one character to a string.
#[verifier::external_body]
pub(crate) fn push_char(s: &mut String, c: char)
    ensures
        final(s)@ == old(s)@.push(c),
{
    s.push(c);
}

/// The string made of `v[lo..hi]`.
pub fn string_of_range(v: &Vec<char>, lo: usize, hi: usize) -> (s: String)
    requires
        lo <= hi <= v.len(),
    ensures
        s@ == v@.subrange(lo as int, hi as int),
{
    let mut s = String::new();
    let mut i = lo;
    while i < hi
        invariant
            lo <= i <= hi <= v.len(),
            s@ == v@.subrange(lo as int, i as int),
        decreases hi - i,
    {
        push_char(&mut s, v[i]);
        assert(s@ =~= v@.subrange(lo as int, i + 1));
        i = i + 1;
    }
    s
}

/// The string made of the characters of `v`.
pub fn string_of(v: &Vec<char>) -> (s: String)
    ensures
        s@ == v@,
{
    let s = string_of_range(v, 0, v.len());
    assert(v@.subrange(0, v@.len() as int) =~= v@);
    s
}

/// The bounds `(lo, hi)` such that `v[lo..hi]` is `v` without leading and
/// trailing whitespace.
pub fn trim_bounds(v: &Vec<char>) -> (r: (usize, usize))
    ensures
        r.0 <= r.1 <= v.len(),
        v@.subrange(r.0 as int, r.1 as int) == trim_seq(v@),
{
    let ghost p = ws_pred();
    let n = v.len();
    let mut i: usize = 0;
    assert(v@.subrange(0, n as int) =~= v@);
    while i < n && char_is_whitespace(v[i])
        invariant
            i <= n == v.len(),
            p == ws_pred(),
            strip_start(v@, p) == strip_start(v@.subrange(i as int, n as int), p),
        decreases n - i,
    {
        proof {
            assert(p(v@[i as int]));
            lemma_strip_start_step(v@, i as int, p);
        }
        i = i + 1;
    }
    let ghost a = v@.subrange(i as int, n as int);
    assert(strip_start(a, p) == a);
    assert(v@.subrange(0, n as int) =~= v@);
    let mut j: usize = n;
    while j > i && char_is_whitespace(v[j - 1])
        invariant
            i <= j <= n == v.len(),
            p == ws_pred(),
            a == v@.subrange(i as int, n as int),
            strip_end(a, p) == strip_end(v@.subrange(i as int, j as int), p),
        decreases j,
    {
        proof {
            let w = v@.subrange(i as int, j as int);
            assert(w.drop_last() =~= v@.subrange(i as int, j - 1));
            assert(p(w.last()));
        }
        j = j - 1;
    }
    proof {
        let w = v@.subrange(i as int, j as int);
        assert(strip_end(w, p) == w);
    }
    (i, j)
}

/// `str::trim`: `s` without leading and trailing whitespace.
pub fn trim(s: &str) -> (r: String)
    ensures
        r@ == trim_seq(s@),
{
    let v = chars_of(s);
    let (lo, hi) = trim_bounds(&v);
    string_of_range(&v, lo, hi)
}

/// Whether `s` holds only whitespace (`s.trim().is_empty()`).
pub fn is_blank(s: &str) -> (b: bool)
    ensures
        b == is_blank_seq(s@),
{
    let v = chars_of(s);
    let (lo, hi) = trim_bounds(&v);
    lo == hi
}

/// The value of `trim_optional`: the trimmed text, or nothing when it is blank.
pub open spec fn trim_optional_spec(value: Option<Seq<char>>) -> Option<Seq<char>> {
    match value {
        Some(s) => if trim_seq(s).len() == 0 {
            None
        } else {
            Some(trim_seq(s))
        },
        None => None,
    }
}

pub open spec fn opt_view(value: Option<String>) -> Option<Seq<char>> {
    match value {
        Some(s) => Some(s@),
        None => None,
    }
}

/// A trimmed optional text: `None` when absent or blank.
pub fn trim_optional(value: Option<String>) -> (r: Option<String>)
    ensures
        opt_view(r) == trim_optional_spec(opt_view(value)),
{
    match value {
        Some(s) => {
            let t = trim(s.as_str());
            if t.as_str().is_empty() {
                None
            } else {
                Some(t)
            }
        },
        None => None,
    }
}

/// The trimmed text, or a bad request `"<field> is required"` when it is blank.
pub fn normalize_required_text(value: &str, field: &str) -> (r: ApiResult<String>)
    ensures
        match r {
            Ok(t) => t@ == trim_seq(value@) && t@.len() > 0,
            Err(e) => trim_seq(value@).len() == 0 && is_bad_request(e, field@ + " is required"@),
        },
{
    let t = trim(value);
    if t.as_str().is_empty() {
        return Err(ApiError::bad_request_field(field, " is required"));
    }
    Ok(t)
}

/// Fails with `"<field> is required"` when `value` is blank.
pub fn require_non_empty(field: &str, value: &str) -> (r: ApiResult<()>)
    ensures
        r is Ok <==> !is_blank_seq(value@),
        r matches Err(e) ==> is_bad_request(e, field@ + " is required"@),
{
    if is_blank(value) {
        return Err(ApiError::bad_request_field(field, " is required"));
    }
    Ok(())
}

/// Holds when some character of `s` satisfies `p`.
pub open spec fn any_char(s: Seq<char>, p: spec_fn(char) -> bool) -> bool {
    exists|i: int| 0 <= i < s.len() && p(#[trigger] s[i])
}

pub open spec fn control_pred() -> spec_fn(char) -> bool {
    |c: char| is_control(c)
}

pub open spec fn control_or_ws_pred() -> spec_fn(char) -> bool {
    |c: char| is_control(c) || is_whitespace(c)
}

/// Whether `value` holds a control character.
pub fn contains_control_char(value: &str) -> (b: bool)
    ensures
        b == any_char(value@, control_pred()),
{
    let v = chars_of(value);
    let mut i: usize = 0;
    while i < v.len()
        invariant
            i <= v.len(),
            v@ == value@,
            forall|k: int| 0 <= k < i ==> !is_control(#[trigger] v@[k]),
        decreases v.len() - i,
    {
        if char_is_control(v[i]) {
            assert(control_pred()(v@[i as int]));
            return true;
        }
        i = i + 1;
    }
    assert forall|k: int| 0 <= k < value@.len() implies !control_pred()(#[trigger] value@[k]) by {
        assert(!is_control(v@[k]));
    }
    false
}

/// Whether `value` holds a control or whitespace character.
pub fn contains_control_or_whitespace(value: &str) -> (b: bool)
    ensures
        b == any_char(value@, control_or_ws_pred()),
{
    let v = chars_of(value);
    let mut i: usize = 0;
    while i < v.len()
        invariant
            i <= v.len(),
            v@ == value@,
            forall|k: int| 0 <= k < i ==> !(is_control(#[trigger] v@[k]) || is_whitespace(v@[k])),
        decreases v.len() - i,
    {
        if char_is_control(v[i]) || char_is_whitespace(v[i]) {
            assert(control_or_ws_pred()(v@[i as int]));
            return true;
        }
        i = i + 1;
    }
    assert forall|k: int| 0 <= k < value@.len() implies !control_or_ws_pred()(
        #[trigger] value@[k],
    ) by {
        assert(!(is_control(v@[k]) || is_whitespace(v@[k])));
    }
    false
}

/// `s` without its leading and trailing `c` (`str::trim_matches(c)`).
pub fn trim_matches_char(s: &str, c: char) -> (r: String)
    ensures
        r@ == trim_char_seq(s@, c),
{
    let v = chars_of(s);
    let (lo, hi) = crate::files::strip_char_bounds(&v, 0, v.len(), c);
    assert(v@.subrange(0, v@.len() as int) =~= v@);
    string_of_range(&v, lo, hi)
}

/// `s` without its trailing `c` (`str::trim_end_matches(c)`).
pub fn trim_end_matches_char(s: &str, c: char) -> (r: String)
    ensures
        r@ == strip_end(s@, char_pred(c)),
{
    let v = chars_of(s);
    let hi = crate::files::strip_end_char(&v, v.len(), c);
    assert(v@.subrange(0, v@.len() as int) =~= v@);
    string_of_range(&v, 0, hi)
}

/// Holds when `s` ends with `suffix`.
pub open spec fn ends_with_seq(s: Seq<char>, suffix: Seq<char>) -> bool {
    suffix.len() <= s.len() && s.subrange(s.len() - suffix.len(), s.len() as int) == suffix
}

/// `str::ends_with` for a text suffix.
pub fn ends_with_text(s: &str, suffix: &str) -> (b: bool)
    ensures
        b == ends_with_seq(s@, suffix@),
{
    let v = chars_of(s);
    let w = chars_of(suffix);
    if w.len() > v.len() {
        return false;
    }
    let off = v.len() - w.len();
    let mut i: usize = 0;
    while i < w.len()
        invariant
            i <= w@.len(),
            off + w@.len() == v@.len(),
            v@.len() == v.len(),
            v@ == s@,
            w@ == suffix@,
            forall|k: int| 0 <= k < i ==> v@[off + k] == w@[k],
        decreases w.len() - i,
    {
        if v[off + i] != w[i] {
            assert(s@.subrange(off as int, s@.len() as int)[i as int] != suffix@[i as int]);
            return false;
        }
        i = i + 1;
    }
    assert(s@.subrange(off as int, s@.len() as int) =~= suffix@);
    true
}

/// Whether the first character of `s` is `c`.
pub fn starts_with_char(s: &str, c: char) -> (b: bool)
    ensures
        b == (s@.len() > 0 && s@[0] == c),
{
    let v = chars_of(s);
    v.len() > 0 && v[0] == c
}

/// Whether the last character of `s` is `c`.
pub fn ends_with_char(s: &str, c: char) -> (b: bool)
    ensures
        b == (s@.len() > 0 && s@.last() == c),
{
    let v = chars_of(s);
    v.len() > 0 && v[v.len() - 1] == c
}

/// Whether two strings hold the same characters.
pub fn str_eq(a: &str, b: &str) -> (r: bool)
    ensures
        r == (a@ == b@),
{
    let va = chars_of(a);
    let vb = chars_of(b);
    if va.len() != vb.len() {
        return false;
    }
    let mut i: usize = 0;
    while i < va.len()
        invariant
            i <= va.len() == vb.len(),
            va@ == a@,
            vb@ == b@,
            forall|k: int| 0 <= k < i ==> va@[k] == vb@[k],
        decreases va.len() - i,
    {
        if va[i] != vb[i] {
            return false;
        }
        i = i + 1;
    }
    assert(va@ =~= vb@);
    true
}

/// Whether `value` is one of `allowed`.
pub fn is_one_of(value: &str, allowed: &[&str]) -> (r: bool)
    ensures
        r == exists|i: int| 0 <= i < allowed@.len() && (#[trigger] allowed@[i])@ == value@,
{
    let mut i: usize = 0;
    while i < allowed.len()
        invariant
            i <= allowed@.len(),
            forall|k: int| 0 <= k < i ==> (#[trigger] allowed@[k])@ != value@,
        decreases allowed.len() - i,
    {
        if str_eq(allowed[i], value) {
            return true;
        }
        i = i + 1;
    }
    false
}

/// A copy of an optional text.
pub fn clone_opt(value: &Option<String>) -> (r: Option<String>)
    ensures
        r == *value,
{
    match value {
        Some(s) => Some(s.clone()),
        None => None,
    }
}

/// The text of `value` when it is present and not empty.
pub open spec fn non_empty_spec(value: Option<Seq<char>>) -> Option<Seq<char>> {
    match value {
        Some(s) => if s.len() > 0 {
            Some(s)
        } else {
            None
        },
        None => None,
    }
}

/// `value` when it is present and not empty, as a query filter takes it.
pub fn non_empty(value: &Option<String>) -> (r: Option<String>)
    ensures
        opt_view(r) == non_empty_spec(opt_view(*value)),
{
    match value {
        Some(s) => if s.as_str().is_empty() {
            None
        } else {
            Some(s.clone())
        },
        None => None,
    }
}

/// `s` in ASCII lower case, as `str::to_ascii_lowercase` gives it.
pub fn ascii_lowercase(s: &str) -> (r: String)
    ensures
        r@ == lowered(s@),
{
    let v = chars_of(s);
    let mut low = String::new();
    let mut i: usize = 0;
    while i < v.len()
        invariant
            i <= v@.len(),
            v@ == s@,
            low@ == lowered(v@.subrange(0, i as int)),
        decreases v.len() - i,
    {
        push_char(&mut low, char_ascii_lower(v[i]));
        proof {
            assert(v@.subrange(0, i + 1) =~= v@.subrange(0, i as int).push(v@[i as int]));
            assert(lowered(v@.subrange(0, i + 1)) =~= lowered(v@.subrange(0, i as int)).push(
                ascii_lower(v@[i as int]),
            ));
        }
        i = i + 1;
    }
    assert(v@.subrange(0, v@.len() as int) =~= v@);
    low
}

/// Holds when `needle` occurs in `hay` at position `i`.
pub open spec fn occurs_at(hay: Seq<char>, needle: Seq<char>, i: int) -> bool {
    0 <= i && i + needle.len() <= hay.len() && hay.subrange(i, i + needle.len()) == needle
}

/// Holds when `needle` occurs somewhere in `hay` (`str::contains`).
pub open spec fn contains_seq(hay: Seq<char>, needle: Seq<char>) -> bool {
    exists|i: int| #[trigger] occurs_at(hay, needle, i)
}

/// Whether `needle` occurs in `v` at position `i`.
fn occurs_in(v: &Vec<char>, w: &Vec<char>, i: usize) -> (b: bool)
    requires
        i + w.len() <= v.len(),
    ensures
        b == occurs_at(v@, w@, i as int),
{
    let mut k: usize = 0;
    while k < w.len()
        invariant
            k <= w.len(),
            i + w.len() <= v.len(),
            forall|j: int| 0 <= j < k ==> v@[i + j] == w@[j],
        decreases w.len() - k,
    {
        if v[i + k] != w[k] {
            assert(v@.subrange(i as int, i + w@.len())[k as int] != w@[k as int]);
            return false;
        }
        k = k + 1;
    }
    assert(v@.subrange(i as int, i + w@.len()) =~= w@);
    true
}

/// Whether `needle` occurs in `hay`.
pub fn contains_text(hay: &str, needle: &str) -> (b: bool)
    ensures
        b == contains_seq(hay@, needle@),
{
    let v = chars_of(hay);
    let w = chars_of(needle);
    if w.len() > v.len() {
        assert forall|i: int| !occurs_at(hay@, needle@, i) by {}
        return false;
    }
    if w.len() == 0 {
        assert(hay@.subrange(0, 0) =~= needle@);
        assert(occurs_at(hay@, needle@, 0));
        return true;
    }
    let last = v.len() - w.len();
    let mut i: usize = 0;
    while i <= last
        invariant
            1 <= w.len() <= v.len(),
            last == v.len() - w.len(),
            v@ == hay@,
            w@ == needle@,
            i <= last + 1,
            forall|j: int| 0 <= j < i ==> !occurs_at(hay@, needle@, j),
        decreases v.len() - i,
    {
        if occurs_in(&v, &w, i) {
            assert(occurs_at(hay@, needle@, i as int));
            return true;
        }
        i = i + 1;
    }
    assert forall|j: int| !occurs_at(hay@, needle@, j) by {
        if 0 <= j < i {
        }
    }
    false
}

/// The pieces of `s` between the occurrences of `sep`, as `str::split`
/// gives them: one more piece than there are separators.
pub open spec fn split_on(s: Seq<char>, sep: char) -> Seq<Seq<char>>
    decreases s.len(),
{
    if s.len() == 0 {
        seq![Seq::empty()]
    } else {
        let pieces = split_on(s.drop_last(), sep);
        if s.last() == sep {
            pieces.push(Seq::empty())
        } else {
            pieces.update(pieces.len() - 1, pieces.last().push(s.last()))
        }
    }
}

/// The pieces never run out: there is always at least one.
pub proof fn lemma_split_on_len(s: Seq<char>, sep: char)
    ensures
        split_on(s, sep).len() >= 1,
    decreases s.len(),
{
    if s.len() > 0 {
        lemma_split_on_len(s.drop_last(), sep);
    }
}

/// The views of a vector of strings.
pub open spec fn views(v: Seq<String>) -> Seq<Seq<char>> {
    v.map_values(|p: String| p@)
}

/// `s` cut at each `sep`.
pub fn split_char(s: &str, sep: char) -> (r: Vec<String>)
    ensures
        views(r@) == split_on(s@, sep),
{
    let v = chars_of(s);
    let mut pieces: Vec<String> = Vec::new();
    let mut current = String::new();
    let mut i: usize = 0;
    proof {
        assert(v@.subrange(0, 0) =~= Seq::<char>::empty());
        assert(views(pieces@).push(current@) =~= split_on(v@.subrange(0, 0), sep));
    }
    while i < v.len()
        invariant
            i <= v@.len(),
            v@ == s@,
            views(pieces@).push(current@) == split_on(v@.subrange(0, i as int), sep),
        decreases v.len() - i,
    {
        let c = v[i];
        let ghost before = v@.subrange(0, i as int);
        let ghost after = v@.subrange(0, i + 1);
        proof {
            assert(after.drop_last() =~= before);
            assert(after.last() == c);
        }
        if c == sep {
            let piece = current;
            pieces.push(piece);
            current = String::new();
            proof {
                assert(views(pieces@) =~= split_on(before, sep));
                assert(views(pieces@).push(current@) =~= split_on(after, sep));
            }
        } else {
            push_char(&mut current, c);
            proof {
                assert(views(pieces@).push(current@) =~= split_on(after, sep));
            }
        }
        i = i + 1;
    }
    let last = current;
    pieces.push(last);
    proof {
        assert(v@.subrange(0, v@.len() as int) =~= v@);
        assert(views(pieces@) =~= split_on(s@, sep));
    }
    pieces
}

/// Holds when `a[i..]` comes no later than `b[i..]` in lexicographic order
/// of code points (the order of `str`, since UTF-8 keeps code point order).
pub open spec fn text_le_from(a: Seq<char>, b: Seq<char>, i: int) -> bool
    decreases a.len() - i,
{
    if i < 0 || i >= a.len() {
        true
    } else if i >= b.len() {
        false
    } else if a[i] != b[i] {
        (a[i] as u32) < (b[i] as u32)
    } else {
        text_le_from(a, b, i + 1)
    }
}

/// Holds when `a` comes no later than `b` in the order of `str`.
pub open spec fn text_le(a: Seq<char>, b: Seq<char>) -> bool {
    text_le_from(a, b, 0)
}

/// Any two texts are ordered one way or the other.
pub proof fn lemma_text_le_total(a: Seq<char>, b: Seq<char>, i: int)
    requires
        0 <= i,
    ensures
        text_le_from(a, b, i) || text_le_from(b, a, i),
    decreases a.len() - i,
{
    if i < a.len() && i < b.len() {
        if a[i] == b[i] {
            lemma_text_le_total(a, b, i + 1);
        } else {
            vstd::utf8::char_u32_cast(a[i], a[i] as u32);
            vstd::utf8::char_u32_cast(b[i], b[i] as u32);
        }
    }
}

/// Every text comes no later than itself.
pub proof fn lemma_text_le_reflexive(a: Seq<char>, i: int)
    requires
        0 <= i,
    ensures
        text_le_from(a, a, i),
    decreases a.len() - i,
{
    if i < a.len() {
        lemma_text_le_reflexive(a, i + 1);
    }
}

/// The order of texts is transitive.
pub proof fn lemma_text_le_transitive(a: Seq<char>, b: Seq<char>, c: Seq<char>, i: int)
    requires
        0 <= i,
        text_le_from(a, b, i),
        text_le_from(b, c, i),
    ensures
        text_le_from(a, c, i),
    decreases a.len() - i,
{
    if i < a.len() && i < b.len() && i < c.len() && a[i] == b[i] && b[i] == c[i] {
        lemma_text_le_transitive(a, b, c, i + 1);
    }
}

/// Whether `a` comes no later than `b` in the order of `str`.
pub fn text_le_exec(a: &str, b: &str) -> (r: bool)
    ensures
        r == text_le(a@, b@),
{
    let va = chars_of(a);
    let vb = chars_of(b);
    let mut i: usize = 0;
    while i < va.len() && i < vb.len() && va[i] == vb[i]
        invariant
            i <= va@.len(),
            i <= vb@.len(),
            va@ == a@,
            vb@ == b@,
            text_le_from(a@, b@, 0) == text_le_from(a@, b@, i as int),
        decreases va.len() - i,
    {
        i = i + 1;
    }
    if i >= va.len() {
        true
    } else if i >= vb.len() {
        false
    } else {
        (va[i] as u32) < (vb[i] as u32)
    }
}

} // verus!
