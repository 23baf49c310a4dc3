use admin_backend::amount::{normalize_amount, parse_amount};
use admin_backend::app::App;
use admin_backend::digest::{sha256_hex, sha256_hex_of_parts};
use admin_backend::error::{ApiError, ErrorKind};
use admin_backend::json::{validate_json, validate_json_object, write_json_i32_list};
use admin_backend::numbers::{decimal_string, i32_string, parse_i32, parse_u32, parse_u64};
use admin_backend::pagination::{clamp_or_default, clamp_u16_or_default, page, page_size};
use admin_backend::text::{
    ascii_lowercase, contains_text, is_blank, non_empty, normalize_required_text, split_char,
    str_eq, trim, trim_matches_char, trim_optional,
};

fn bad_request(e: &ApiError, message: &str) -> bool {
    e.kind == ErrorKind::BadRequest && e.message == message
}

#[test]
fn trim_removes_surrounding_whitespace() {
    assert_eq!(trim("  a b \t\n"), "a b");
    assert_eq!(trim(""), "");
    assert_eq!(trim(trim("  x  ").as_str()), trim("  x  "));
}

#[test]
fn blank_and_optional_texts() {
    assert!(is_blank(" \t "));
    assert!(!is_blank(" a "));
    assert_eq!(trim_optional(Some("  v ".to_string())), Some("v".to_string()));
    assert_eq!(trim_optional(Some("   ".to_string())), None);
    assert_eq!(trim_optional(None), None);
    assert_eq!(non_empty(&Some(String::new())), None);
    assert_eq!(non_empty(&Some(" ".to_string())), Some(" ".to_string()));
}

#[test]
fn required_text_is_trimmed_or_refused() {
    assert_eq!(normalize_required_text("  name ", "name").unwrap(), "name");
    let e = normalize_required_text("   ", "code").unwrap_err();
    assert!(bad_request(&e, "code is required"));
}

#[test]
fn trim_matches_and_compare() {
    assert_eq!(trim_matches_char("//a/b//", '/'), "a/b");
    assert!(str_eq("abc", "abc"));
    assert!(!str_eq("abc", "abd"));
    assert_eq!(ascii_lowercase("AbC-Ä"), "abc-Ä");
}

#[test]
fn contains_text_finds_substrings() {
    assert!(contains_text("nginx: worker", "worker"));
    assert!(contains_text("abc", ""));
    assert!(!contains_text("abc", "abcd"));
    assert!(!contains_text("abc", "ac"));
}

#[test]
fn split_char_matches_str_split() {
    assert_eq!(split_char("a,b,,c", ','), vec!["a", "b", "", "c"]);
    assert_eq!(split_char("", ','), vec![""]);
    assert_eq!(split_char("a,", ','), vec!["a", ""]);
}

#[test]
fn integer_parsing_follows_from_str() {
    assert_eq!(parse_u64("42"), Some(42));
    assert_eq!(parse_u64("+7"), Some(7));
    assert_eq!(parse_u64("18446744073709551615"), Some(u64::MAX));
    assert_eq!(parse_u64("18446744073709551616"), None);
    assert_eq!(parse_u64("-1"), None);
    assert_eq!(parse_u64(""), None);
    assert_eq!(parse_i32("-2147483648", "id").unwrap(), i32::MIN);
    let e = parse_i32("2147483648", "id").unwrap_err();
    assert!(bad_request(&e, "invalid id"));
    assert_eq!(parse_u32("4294967295", "n").unwrap(), u32::MAX);
    assert!(parse_u32("x", "n").is_err());
}

#[test]
fn decimal_texts() {
    assert_eq!(decimal_string(0), "0");
    assert_eq!(decimal_string(1234567890), "1234567890");
    assert_eq!(i32_string(-15), "-15");
    assert_eq!(i32_string(i32::MIN), "-2147483648");
}

#[test]
fn pages_are_clamped() {
    assert_eq!(page(None), 1);
    assert_eq!(page(Some(0)), 1);
    assert_eq!(page(Some(5)), 5);
    assert_eq!(page_size(None), 10);
    assert_eq!(page_size(Some(0)), 1);
    assert_eq!(page_size(Some(1000)), 100);
    assert_eq!(clamp_or_default(None, 50, 1, 500), 50);
    assert_eq!(clamp_or_default(Some(900), 50, 1, 500), 500);
    assert_eq!(clamp_u16_or_default(Some(5), 80, 20, 300), 20);
}

#[test]
fn amounts_are_read_in_cents() {
    assert_eq!(parse_amount("12.34").unwrap(), 1234);
    assert_eq!(parse_amount(" 7 ").unwrap(), 700);
    assert_eq!(parse_amount("0.5").unwrap(), 50);
    assert!(bad_request(&parse_amount("-1").unwrap_err(), "amount must be a positive decimal"));
    assert!(bad_request(&parse_amount("1.234").unwrap_err(), "amount must be a positive decimal"));
    assert!(bad_request(&parse_amount("abc").unwrap_err(), "amount must be a positive decimal"));
    assert!(bad_request(&parse_amount("0.00").unwrap_err(), "amount must be greater than zero"));
    assert!(bad_request(&parse_amount("92233720368547758.08").unwrap_err(), "amount is too large"));
    assert_eq!(parse_amount("92233720368547758.07").unwrap(), i64::MAX);
}

#[test]
fn normalized_amount_keeps_its_cents_and_is_stable() {
    assert_eq!(normalize_amount("12.5").unwrap(), "12.50");
    assert_eq!(normalize_amount("7").unwrap(), "7.00");
    let once = normalize_amount(" 3.1 ").unwrap();
    assert_eq!(normalize_amount(&once).unwrap(), once);
    assert_eq!(parse_amount(&once).unwrap(), parse_amount(" 3.1 ").unwrap());
}

#[test]
fn json_checks() {
    assert!(validate_json("config", "{\"a\":1}").is_ok());
    assert!(validate_json("config", "[1,2]").is_ok());
    let e = validate_json("config", "{oops").unwrap_err();
    assert!(bad_request(&e, "config must be valid json"));
    assert!(validate_json_object(None, "extra").is_ok());
    assert!(validate_json_object(Some("  "), "extra").is_ok());
    assert!(validate_json_object(Some("{}"), "extra").is_ok());
    assert!(bad_request(&validate_json_object(Some("[1]"), "extra").unwrap_err(), "extra must be a JSON object"));
    assert!(bad_request(&validate_json_object(Some("{"), "extra").unwrap_err(), "extra must be JSON"));
    assert_eq!(write_json_i32_list(&[3, 1, 2]), "[3,1,2]");
    assert_eq!(write_json_i32_list(&[]), "[]");
}

#[test]
fn sha256_digests_in_hex() {
    assert_eq!(
        sha256_hex(b"abc"),
        "ba7816bf8f01cfea414140de5dae2223b00361a396177a9cb410ff61f20015ad"
    );
    assert_eq!(
        sha256_hex(b""),
        "e3b0c44298fc1c149afbf4c8996fb92427ae41e4649b934ca495991b7852b855"
    );
    let parts = vec![b"a".to_vec(), b"".to_vec(), b"bc".to_vec()];
    assert_eq!(sha256_hex_of_parts(&parts), sha256_hex(b"abc"));
}

#[test]
fn app_version_names_its_revision() {
    assert_eq!(App::app_name(), "admin_backend");
    assert_eq!(App::version_text("1.2.3", Some("abc"), Some("def")), "1.2.3 (abc)");
    assert_eq!(App::version_text("1.2.3", None, Some("def")), "1.2.3 (def)");
    assert_eq!(App::version_text("1.2.3", None, None), "1.2.3 (dev)");
}

#[test]
fn error_constructors() {
    let e = ApiError::bad_request_field("name", " is required");
    assert!(bad_request(&e, "name is required"));
    assert_eq!(e.message(), "name is required");
    assert_eq!(ApiError::forbidden("no").kind, ErrorKind::Forbidden);
    assert_eq!(ApiError::unauthorized("no").kind, ErrorKind::Unauthorized);
    assert_eq!(ApiError::internal("x").kind, ErrorKind::Internal);
}
