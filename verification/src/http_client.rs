use vstd::prelude::*;

use crate::error::{is_bad_request, ApiError, ApiResult};
use crate::numbers::{decimal_string, decimal_text};
use crate::text::{chars_of, str_eq, string_of_range, trim, trim_seq};

verus! {

/// A request to try the configured HTTP client against `url`.
#[derive(Debug)]
pub struct HttpClientTestParams {
    pub url: String,
}

/// What a trial request came to.
#[derive(Debug)]
pub struct HttpClientTestRecord {
    pub ok: bool,
    pub status_code: Option<u16>,
    pub duration_ms: u64,
    pub message: String,
}

/// The longest error text, in characters, that a trial record keeps.
pub const TEST_MESSAGE_LIMIT: usize = 500;

/// What the `url` crate makes of `text`: `Some((serialization, scheme))` for
/// an absolute URL it accepts, `None` when it refuses the text.
pub uninterp spec fn parsed_url(text: Seq<char>) -> Option<(Seq<char>, Seq<char>)>;

/// `Url::parse` of the `url` crate (re-exported by `reqwest`). Trusted: the
/// result is `parsed_url` of the text, the URL taken as its serialization
/// and its scheme.
#[verifier::external_body]
fn parse_url(text: &str) -> (r: Option<(String, String)>)
    ensures
        match r {
            Some((href, scheme)) => parsed_url(text@) == Some((href@, scheme@)),
            None => parsed_url(text@) is None,
        },
{
    match reqwest::Url::parse(text) {
        Ok(url) => Some((url.as_str().to_string(), url.scheme().to_string())),
        Err(_) => None,
    }
}

/// The URL that a trial may be sent to, or the message of the refusal.
pub open spec fn test_url_outcome(parsed: Option<(Seq<char>, Seq<char>)>) -> Result<
    Seq<char>,
    Seq<char>,
> {
    match parsed {
        None => Err("test url is invalid"@),
        Some((href, scheme)) => if scheme == "http"@ || scheme == "https"@ {
            Ok(href)
        } else {
            Err("test url must use http or https"@)
        },
    }
}

/// Decides on a parsed trial URL: only `http` and `https` may be tried.
pub fn check_test_url(parsed: Option<(String, String)>) -> (r: ApiResult<String>)
    ensures
        match r {
            Ok(href) => test_url_outcome(
                match parsed {
                    Some((h, s)) => Some((h@, s@)),
                    None => None,
                },
            ) == Ok::<Seq<char>, Seq<char>>(href@),
            Err(e) => match test_url_outcome(
                match parsed {
                    Some((h, s)) => Some((h@, s@)),
                    None => None,
                },
            ) {
                Err(msg) => is_bad_request(e, msg),
                Ok(_) => false,
            },
        },
{
    match parsed {
        None => Err(ApiError::bad_request("test url is invalid")),
        Some((href, scheme)) => {
            if str_eq(scheme.as_str(), "http") || str_eq(scheme.as_str(), "https") {
                Ok(href)
            } else {
                Err(ApiError::bad_request("test url must use http or https"))
            }
        },
    }
}

/// The trial URL in `value`, with surrounding whitespace removed; refused
/// unless the `url` crate accepts it and its scheme is `http` or `https`.
pub fn validate_test_url(value: &str) -> (r: ApiResult<String>)
    ensures
        match r {
            Ok(href) => test_url_outcome(parsed_url(trim_seq(value@))) == Ok::<
                Seq<char>,
                Seq<char>,
            >(href@),
            Err(e) => match test_url_outcome(parsed_url(trim_seq(value@))) {
                Err(msg) => is_bad_request(e, msg),
                Ok(_) => false,
            },
        },
{
    let t = trim(value);
    let parsed = parse_url(t.as_str());
    check_test_url(parsed)
}

/// The standard reason phrase that the `http` crate knows for `code`.
pub uninterp spec fn reason_phrase(code: u16) -> Option<Seq<char>>;

/// `StatusCode::canonical_reason` of the `http` crate (re-exported by
/// `reqwest`). Trusted: the result is `reason_phrase` of the code; the
/// crate's `from_u16` accepts exactly the codes 100 to 999.
#[verifier::external_body]
fn canonical_reason(code: u16) -> (r: Option<String>)
    requires
        100 <= code <= 999,
    ensures
        match r {
            Some(p) => reason_phrase(code) == Some(p@),
            None => reason_phrase(code) is None,
        },
{
    match reqwest::StatusCode::from_u16(code) {
        Ok(status) => status.canonical_reason().map(|reason| reason.to_string()),
        Err(_) => None,
    }
}

/// How a status code is written: its number, a space and its reason phrase.
pub open spec fn status_text(code: u16) -> Seq<char> {
    decimal_text(code as nat) + " "@ + match reason_phrase(code) {
        Some(p) => p,
        None => "<unknown status code>"@,
    }
}

/// A status code written as `status_text` says.
pub fn status_line(code: u16) -> (s: String)
    requires
        100 <= code <= 999,
    ensures
        s@ == status_text(code),
{
    let reason = match canonical_reason(code) {
        Some(p) => p,
        None => String::from_str("<unknown status code>"),
    };
    decimal_string(code as u64).concat(" ").concat(reason.as_str())
}

/// The first `limit` characters of `s`, or all of it when it is shorter.
pub open spec fn first_chars(s: Seq<char>, limit: nat) -> Seq<char> {
    if s.len() <= limit {
        s
    } else {
        s.take(limit as int)
    }
}

/// An error text cut to `TEST_MESSAGE_LIMIT` characters.
pub fn trim_message(message: &str) -> (r: String)
    ensures
        r@ == first_chars(message@, TEST_MESSAGE_LIMIT as nat),
{
    let v = chars_of(message);
    if v.len() <= TEST_MESSAGE_LIMIT {
        string_of_range(&v, 0, v.len())
    } else {
        string_of_range(&v, 0, TEST_MESSAGE_LIMIT)
    }
}

/// Milliseconds as a `u64`, saturating at `u64::MAX`.
pub fn elapsed_millis(elapsed: u128) -> (r: u64)
    ensures
        r == if elapsed <= u64::MAX as u128 {
            elapsed
        } else {
            u64::MAX as u128
        },
{
    if elapsed <= u64::MAX as u128 {
        elapsed as u64
    } else {
        u64::MAX
    }
}

/// Whether a status code is in the success class 200 to 299.
pub open spec fn is_success_code(code: u16) -> bool {
    200 <= code <= 299
}

/// The record of a trial request: `outcome` is the response's status code,
/// or the text of the error that stopped the request.
pub fn test_record(outcome: Result<u16, String>, duration_ms: u64) -> (r: HttpClientTestRecord)
    requires
        outcome matches Ok(code) ==> 100 <= code <= 999,
    ensures
        r.duration_ms == duration_ms,
        match outcome {
            Ok(code) => {
                &&& r.ok == is_success_code(code)
                &&& r.status_code == Some(code)
                &&& r.message@ == if is_success_code(code) {
                    "request completed"@
                } else {
                    "request completed with http "@ + status_text(code)
                }
            },
            Err(text) => {
                &&& !r.ok
                &&& r.status_code is None
                &&& r.message@ == first_chars(text@, TEST_MESSAGE_LIMIT as nat)
            },
        },
{
    match outcome {
        Ok(code) => {
            let ok = 200 <= code && code <= 299;
            let message = if ok {
                String::from_str("request completed")
            } else {
                String::from_str("request completed with http ").concat(status_line(code).as_str())
            };
            HttpClientTestRecord { ok, status_code: Some(code), duration_ms, message }
        },
        Err(text) => HttpClientTestRecord {
            ok: false,
            status_code: None,
            duration_ms,
            message: trim_message(text.as_str()),
        },
    }
}

} // verus!
