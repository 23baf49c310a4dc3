use vstd::prelude::*;

use crate::text::clone_opt;

use crate::error::{is_bad_request, ApiError, ApiResult};
use crate::files::{sanitize_filename, sanitized_file_name};
use crate::ids::{is_lower_hex_digit, new_simple_uuid};
use crate::datetime::{clock_digits, utc_now_compact};
use crate::numbers::{
    decimal_string, decimal_text, i32_string, i32_text_value, int_text, parse_i32, parse_u32,
    u32_text_value,
};
use crate::text::{
    any_char, char_pred, chars_of, contains_control_or_whitespace, control_or_ws_pred,
    ends_with_seq, ends_with_text, is_blank, is_blank_seq, normalize_required_text, opt_view,
    starts_with_char, str_eq, string_of_range, strip_end, trim, trim_char_seq,
    trim_end_matches_char, trim_matches_char, trim_optional, trim_optional_spec, trim_seq,
};

verus! {

pub const DEFAULT_MODEL: &'static str = "gpt-image-2";

pub const DEFAULT_SIZE: &'static str = "1024x1536";

pub const DEFAULT_QUALITY: &'static str = "high";

pub const DEFAULT_COUNT: u32 = 1;

/// The MIME type of every generated image.
pub const GENERATED_MIME_TYPE: &'static str = "image/png";

/// A stored provider configuration for image generation.
#[derive(Debug)]
pub struct AiImageConfig {
    pub key: String,
    pub name: String,
    pub enabled: bool,
    pub base_url: String,
    pub api_key: String,
    pub model: String,
    pub size: String,
    pub quality: String,
    pub n: u32,
    pub save_mode: String,
    pub local_output_dir: Option<String>,
    pub storage_bucket_id: Option<i32>,
    pub storage_prefix: Option<String>,
    pub description: Option<String>,
}

/// What a client sends to create or update a configuration.
#[derive(Debug)]
pub struct SaveAiImageConfigParams {
    pub key: String,
    pub name: String,
    pub enabled: Option<bool>,
    pub base_url: String,
    pub api_key: Option<String>,
    pub model: Option<String>,
    pub size: Option<String>,
    pub quality: Option<String>,
    pub n: Option<u32>,
    pub save_mode: String,
    pub local_output_dir: Option<String>,
    pub storage_bucket_id: Option<i32>,
    pub storage_prefix: Option<String>,
    pub description: Option<String>,
}

/// A configuration as the API shows it: the API key itself is never shown,
/// only whether one is set.
#[derive(Debug)]
pub struct AiImageConfigRecord {
    pub key: String,
    pub name: String,
    pub enabled: bool,
    pub base_url: String,
    pub api_key_configured: bool,
    pub model: String,
    pub size: String,
    pub quality: String,
    pub n: u32,
    pub save_mode: String,
    pub local_output_dir: Option<String>,
    pub storage_bucket_id: Option<i32>,
    pub storage_prefix: Option<String>,
    pub description: Option<String>,
}

/// The message of a missing required field.
pub open spec fn required_message(field: Seq<char>) -> Seq<char> {
    field + " is required"@
}

/// Why `key` cannot name a configuration, if it cannot: it is blank, or
/// (once trimmed) it starts with `-` or holds a control or whitespace
/// character.
pub open spec fn config_key_problem(key: Seq<char>) -> Option<Seq<char>> {
    let t = trim_seq(key);
    if t.len() == 0 {
        Some(required_message("key"@))
    } else if t[0] == '-' || any_char(t, control_or_ws_pred()) {
        Some("invalid ai image config key"@)
    } else {
        None
    }
}

/// The trimmed configuration key, or why it is refused.
pub fn normalize_config_key(value: &str) -> (r: ApiResult<String>)
    ensures
        match r {
            Ok(t) => config_key_problem(value@) is None && t@ == trim_seq(value@),
            Err(e) => config_key_problem(value@) matches Some(m) && is_bad_request(e, m),
        },
{
    let value = match normalize_required_text(value, "key") {
        Ok(v) => v,
        Err(e) => return Err(e),
    };
    if starts_with_char(value.as_str(), '-') || contains_control_or_whitespace(value.as_str()) {
        return Err(ApiError::bad_request("invalid ai image config key"));
    }
    Ok(value)
}

/// The existing configuration behind an optional reference.
pub open spec fn deref_config(existing: Option<&AiImageConfig>) -> Option<AiImageConfig> {
    match existing {
        Some(c) => Some(*c),
        None => None,
    }
}

/// The API key a saved configuration gets: the given one, trimmed, or else
/// the non-empty key of the configuration it replaces.
pub open spec fn chosen_api_key(p: SaveAiImageConfigParams, ex: Option<AiImageConfig>) -> Option<
    Seq<char>,
> {
    match trim_optional_spec(opt_view(p.api_key)) {
        Some(k) => Some(k),
        None => match ex {
            Some(c) => if c.api_key@.len() > 0 {
                Some(c.api_key@)
            } else {
                None
            },
            None => None,
        },
    }
}

/// The storage bucket a saved configuration gets: the given one, or the one
/// of the configuration it replaces.
pub open spec fn chosen_bucket(p: SaveAiImageConfigParams, ex: Option<AiImageConfig>) -> Option<i32> {
    match p.storage_bucket_id {
        Some(b) => Some(b),
        None => match ex {
            Some(c) => c.storage_bucket_id,
            None => None,
        },
    }
}

/// A text setting: the given one when it is not blank (trimmed), else the
/// fallback, else the default.
pub open spec fn chosen_text(given: Option<String>, fallback: Option<Seq<char>>, default: Seq<char>) -> Seq<
    char,
> {
    match trim_optional_spec(opt_view(given)) {
        Some(v) => v,
        None => match fallback {
            Some(f) => f,
            None => default,
        },
    }
}

/// `n.clamp(1, 10)`: how many images one request asks for.
pub open spec fn clamp_count(n: u32) -> u32 {
    if n < 1 {
        1
    } else if n > 10 {
        10
    } else {
        n
    }
}

/// The storage prefix a configuration keeps: the given one without its
/// surrounding slashes and with one trailing slash, or none when nothing is
/// left of it.
pub open spec fn storage_prefix_spec(prefix: Option<String>) -> Option<Seq<char>> {
    match trim_optional_spec(opt_view(prefix)) {
        Some(v) => {
            let core = trim_char_seq(v, '/');
            if core.len() == 0 {
                None
            } else {
                Some(core + "/"@)
            }
        },
        None => None,
    }
}

/// Why a configuration cannot be saved, checked in this order, if it cannot.
pub open spec fn config_problem(p: SaveAiImageConfigParams, ex: Option<AiImageConfig>) -> Option<
    Seq<char>,
> {
    let mode = trim_seq(p.save_mode@);
    if config_key_problem(p.key@) is Some {
        config_key_problem(p.key@)
    } else if trim_seq(p.name@).len() == 0 {
        Some(required_message("name"@))
    } else if trim_seq(p.base_url@).len() == 0 {
        Some(required_message("base_url"@))
    } else if chosen_api_key(p, ex) is None {
        Some("api_key is required"@)
    } else if mode.len() == 0 {
        Some(required_message("save_mode"@))
    } else if !(mode == "local"@ || mode == "storage"@) {
        Some("invalid ai image save mode"@)
    } else if mode == "local"@ && trim_optional_spec(opt_view(p.local_output_dir)) is None {
        Some("local_output_dir is required for local save mode"@)
    } else if mode == "storage"@ && chosen_bucket(p, ex) is None {
        Some("storage_bucket_id is required for storage save mode"@)
    } else {
        None
    }
}

/// Holds when `c` is the configuration that `p` saves over `ex`.
pub open spec fn saved_config(c: AiImageConfig, p: SaveAiImageConfigParams, ex: Option<AiImageConfig>) -> bool {
    &&& c.key@ == trim_seq(p.key@)
    &&& c.name@ == trim_seq(p.name@)
    &&& c.enabled == match p.enabled {
        Some(b) => b,
        None => match ex {
            Some(e) => e.enabled,
            None => true,
        },
    }
    &&& c.base_url@ == trim_seq(p.base_url@)
    &&& chosen_api_key(p, ex) == Some(c.api_key@)
    &&& c.model@ == chosen_text(
        p.model,
        match ex {
            Some(e) => Some(e.model@),
            None => None,
        },
        DEFAULT_MODEL@,
    )
    &&& c.size@ == chosen_text(
        p.size,
        match ex {
            Some(e) => Some(e.size@),
            None => None,
        },
        DEFAULT_SIZE@,
    )
    &&& c.quality@ == chosen_text(
        p.quality,
        match ex {
            Some(e) => Some(e.quality@),
            None => None,
        },
        DEFAULT_QUALITY@,
    )
    &&& c.n == clamp_count(
        match p.n {
            Some(n) => n,
            None => match ex {
                Some(e) => e.n,
                None => DEFAULT_COUNT,
            },
        },
    )
    &&& c.save_mode@ == trim_seq(p.save_mode@)
    &&& opt_view(c.local_output_dir) == trim_optional_spec(opt_view(p.local_output_dir))
    &&& c.storage_bucket_id == chosen_bucket(p, ex)
    &&& opt_view(c.storage_prefix) == storage_prefix_spec(p.storage_prefix)
    &&& opt_view(c.description) == trim_optional_spec(opt_view(p.description))
}

/// `n.clamp(1, 10)`.
pub fn clamp_image_count(n: u32) -> (r: u32)
    ensures
        r == clamp_count(n),
{
    if n < 1 {
        1
    } else if n > 10 {
        10
    } else {
        n
    }
}

/// The normalized storage prefix of a configuration.
pub fn normalize_storage_prefix(prefix: Option<String>) -> (r: Option<String>)
    ensures
        opt_view(r) == storage_prefix_spec(prefix),
{
    match trim_optional(prefix) {
        Some(v) => {
            let core = trim_matches_char(v.as_str(), '/');
            if core.as_str().is_empty() {
                None
            } else {
                Some(core.concat("/"))
            }
        },
        None => None,
    }
}

/// A text setting: the given one, trimmed, when it is not blank; else the
/// fallback; else the default.
fn choose_text(given: Option<String>, fallback: Option<&String>, default: &str) -> (r: String)
    ensures
        r@ == chosen_text(
            given,
            match fallback {
                Some(f) => Some(f@),
                None => None,
            },
            default@,
        ),
{
    match trim_optional(given) {
        Some(v) => v,
        None => match fallback {
            Some(f) => f.clone(),
            None => String::from_str(default),
        },
    }
}

/// Law: what a save request sends wins over the configuration it
/// replaces: a sent storage bucket, API key, model, size, quality, count (in
/// 1..=10) or enabled flag is the one saved; the replaced configuration's
/// bucket is kept only when none is sent.
pub proof fn law_sent_settings_win(p: SaveAiImageConfigParams, ex: Option<AiImageConfig>)
    ensures
        p.storage_bucket_id matches Some(b) ==> chosen_bucket(p, ex) == Some(b),
        p.storage_bucket_id is None ==> chosen_bucket(p, ex) == match ex {
            Some(e) => e.storage_bucket_id,
            None => None,
        },
        trim_optional_spec(opt_view(p.api_key)) matches Some(k) ==> chosen_api_key(p, ex) == Some(k),
        forall|fallback: Option<Seq<char>>, default: Seq<char>|
            trim_optional_spec(opt_view(p.model)) matches Some(m) ==> #[trigger] chosen_text(
                p.model,
                fallback,
                default,
            ) == m,
        forall|fallback: Option<Seq<char>>, default: Seq<char>|
            trim_optional_spec(opt_view(p.size)) matches Some(z) ==> #[trigger] chosen_text(
                p.size,
                fallback,
                default,
            ) == z,
        forall|fallback: Option<Seq<char>>, default: Seq<char>|
            trim_optional_spec(opt_view(p.quality)) matches Some(q) ==> #[trigger] chosen_text(
                p.quality,
                fallback,
                default,
            ) == q,
        forall|n: u32| 1 <= n <= 10 ==> #[trigger] clamp_count(n) == n,
{
}

/// The configuration that `params` saves, over the configuration `existing`
/// it replaces (none when it is new), or the first reason it is refused.
pub fn build_config(params: &SaveAiImageConfigParams, existing: Option<&AiImageConfig>) -> (r:
    ApiResult<AiImageConfig>)
    ensures
        match r {
            Ok(c) => config_problem(*params, deref_config(existing)) is None && saved_config(
                c,
                *params,
                deref_config(existing),
            ),
            Err(e) => config_problem(*params, deref_config(existing)) matches Some(m)
                && is_bad_request(e, m),
        },
        r matches Ok(c) ==> {
            &&& (params.storage_bucket_id matches Some(b) ==> c.storage_bucket_id == Some(b))
            &&& (params.storage_bucket_id is None ==> c.storage_bucket_id == match existing {
                Some(e) => e.storage_bucket_id,
                None => None,
            })
            &&& (params.enabled matches Some(b) ==> c.enabled == b)
            &&& (params.n matches Some(n) ==> (1 <= n <= 10 ==> c.n == n))
            &&& (trim_optional_spec(opt_view(params.api_key)) matches Some(k) ==> c.api_key@ == k)
            &&& (trim_optional_spec(opt_view(params.model)) matches Some(m) ==> c.model@ == m)
            &&& (trim_optional_spec(opt_view(params.size)) matches Some(z) ==> c.size@ == z)
            &&& (trim_optional_spec(opt_view(params.quality)) matches Some(q) ==> c.quality@ == q)
        },
{
    proof {
        law_sent_settings_win(*params, deref_config(existing));
    }
    let key = match normalize_config_key(params.key.as_str()) {
        Ok(k) => k,
        Err(e) => return Err(e),
    };
    let name = match normalize_required_text(params.name.as_str(), "name") {
        Ok(v) => v,
        Err(e) => return Err(e),
    };
    let base_url = match normalize_required_text(params.base_url.as_str(), "base_url") {
        Ok(v) => v,
        Err(e) => return Err(e),
    };
    let api_key = match trim_optional(clone_opt(&params.api_key)) {
        Some(v) => v,
        None => match existing {
            Some(c) => {
                if c.api_key.as_str().is_empty() {
                    return Err(ApiError::bad_request("api_key is required"));
                }
                c.api_key.clone()
            },
            None => return Err(ApiError::bad_request("api_key is required")),
        },
    };
    let save_mode = match normalize_required_text(params.save_mode.as_str(), "save_mode") {
        Ok(v) => v,
        Err(e) => return Err(e),
    };
    let is_local = str_eq(save_mode.as_str(), "local");
    let is_storage = str_eq(save_mode.as_str(), "storage");
    if !is_local && !is_storage {
        return Err(ApiError::bad_request("invalid ai image save mode"));
    }
    let local_output_dir = trim_optional(clone_opt(&params.local_output_dir));
    let storage_prefix = normalize_storage_prefix(clone_opt(&params.storage_prefix));
    let storage_bucket_id = match params.storage_bucket_id {
        Some(b) => Some(b),
        None => match existing {
            Some(c) => c.storage_bucket_id,
            None => None,
        },
    };
    if is_local && local_output_dir.is_none() {
        return Err(ApiError::bad_request("local_output_dir is required for local save mode"));
    }
    if is_storage && storage_bucket_id.is_none() {
        return Err(ApiError::bad_request("storage_bucket_id is required for storage save mode"));
    }
    let n = clamp_image_count(
        match params.n {
            Some(n) => n,
            None => match existing {
                Some(c) => c.n,
                None => DEFAULT_COUNT,
            },
        },
    );
    let enabled = match params.enabled {
        Some(b) => b,
        None => match existing {
            Some(c) => c.enabled,
            None => true,
        },
    };
    let model = choose_text(
        clone_opt(&params.model),
        match existing {
            Some(c) => Some(&c.model),
            None => None,
        },
        DEFAULT_MODEL,
    );
    let size = choose_text(
        clone_opt(&params.size),
        match existing {
            Some(c) => Some(&c.size),
            None => None,
        },
        DEFAULT_SIZE,
    );
    let quality = choose_text(
        clone_opt(&params.quality),
        match existing {
            Some(c) => Some(&c.quality),
            None => None,
        },
        DEFAULT_QUALITY,
    );
    let description = trim_optional(clone_opt(&params.description));
    Ok(
        AiImageConfig {
            key,
            name,
            enabled,
            base_url,
            api_key,
            model,
            size,
            quality,
            n,
            save_mode,
            local_output_dir,
            storage_bucket_id,
            storage_prefix,
            description,
        },
    )
}

impl AiImageConfigRecord {
    /// The record of `config`; `api_key_configured` tells whether its key
    /// holds more than whitespace.
    pub fn from_config(config: AiImageConfig) -> (r: AiImageConfigRecord)
        ensures
            r.key == config.key,
            r.name == config.name,
            r.enabled == config.enabled,
            r.base_url == config.base_url,
            r.api_key_configured == !is_blank_seq(config.api_key@),
            r.model == config.model,
            r.size == config.size,
            r.quality == config.quality,
            r.n == config.n,
            r.save_mode == config.save_mode,
            r.local_output_dir == config.local_output_dir,
            r.storage_bucket_id == config.storage_bucket_id,
            r.storage_prefix == config.storage_prefix,
            r.description == config.description,
    {
        let api_key_configured = !is_blank(config.api_key.as_str());
        AiImageConfigRecord {
            key: config.key,
            name: config.name,
            enabled: config.enabled,
            base_url: config.base_url,
            api_key_configured,
            model: config.model,
            size: config.size,
            quality: config.quality,
            n: config.n,
            save_mode: config.save_mode,
            local_output_dir: config.local_output_dir,
            storage_bucket_id: config.storage_bucket_id,
            storage_prefix: config.storage_prefix,
            description: config.description,
        }
    }
}

/// What one generation request asks the provider for.
#[derive(Debug)]
pub struct EffectiveGenerationParams {
    pub prompt: String,
    pub model: String,
    pub size: String,
    pub quality: String,
    pub n: u32,
}

impl EffectiveGenerationParams {
    /// The request's own values where given, else the configuration's; the
    /// prompt is trimmed and required, the count clamped to 1..=10.
    pub fn new(
        config: &AiImageConfig,
        prompt: &str,
        model: Option<String>,
        size: Option<String>,
        quality: Option<String>,
        n: Option<u32>,
    ) -> (r: ApiResult<EffectiveGenerationParams>)
        ensures
            match r {
                Ok(p) => {
                    &&& trim_seq(prompt@).len() > 0
                    &&& p.prompt@ == trim_seq(prompt@)
                    &&& p.model == match model {
                        Some(m) => m,
                        None => config.model,
                    }
                    &&& p.size == match size {
                        Some(v) => v,
                        None => config.size,
                    }
                    &&& p.quality == match quality {
                        Some(v) => v,
                        None => config.quality,
                    }
                    &&& p.n == clamp_count(
                        match n {
                            Some(v) => v,
                            None => config.n,
                        },
                    )
                },
                Err(e) => trim_seq(prompt@).len() == 0 && is_bad_request(
                    e,
                    required_message("prompt"@),
                ),
            },
    {
        let prompt = match normalize_required_text(prompt, "prompt") {
            Ok(p) => p,
            Err(e) => return Err(e),
        };
        let model = match model {
            Some(m) => m,
            None => config.model.clone(),
        };
        let size = match size {
            Some(v) => v,
            None => config.size.clone(),
        };
        let quality = match quality {
            Some(v) => v,
            None => config.quality.clone(),
        };
        let n = clamp_image_count(
            match n {
                Some(v) => v,
                None => config.n,
            },
        );
        Ok(EffectiveGenerationParams { prompt, model, size, quality, n })
    }
}

/// The endpoint path a request goes to: edits when reference images are
/// sent, generations otherwise.
pub open spec fn generation_suffix(with_reference_images: bool) -> Seq<char> {
    if with_reference_images {
        "/images/edits"@
    } else {
        "/images/generations"@
    }
}

/// The request URL: the base URL without trailing slashes, followed by the
/// endpoint path unless it already ends with it.
pub open spec fn generation_url(base_url: Seq<char>, with_reference_images: bool) -> Seq<char> {
    let base = strip_end(base_url, char_pred('/'));
    let suffix = generation_suffix(with_reference_images);
    if ends_with_seq(base, suffix) {
        base
    } else {
        base + suffix
    }
}

/// The URL a generation request is sent to (see `generation_url`).
pub fn build_generation_url(base_url: &str, with_reference_images: bool) -> (r: String)
    ensures
        r@ == generation_url(base_url@, with_reference_images),
{
    let base = trim_end_matches_char(base_url, '/');
    let suffix = if with_reference_images {
        "/images/edits"
    } else {
        "/images/generations"
    };
    if ends_with_text(base.as_str(), suffix) {
        base
    } else {
        base.concat(suffix)
    }
}

/// Law: the URL a request goes to ends with its endpoint path, and
/// building the URL again from it gives it back.
pub proof fn law_generation_url_is_stable(base_url: Seq<char>, with_reference_images: bool)
    ensures
        ends_with_seq(
            generation_url(base_url, with_reference_images),
            generation_suffix(with_reference_images),
        ),
        generation_url(generation_url(base_url, with_reference_images), with_reference_images)
            == generation_url(base_url, with_reference_images),
{
    reveal_strlit("/images/edits");
    reveal_strlit("/images/generations");
    let base = strip_end(base_url, char_pred('/'));
    let suffix = generation_suffix(with_reference_images);
    let u = generation_url(base_url, with_reference_images);
    if !ends_with_seq(base, suffix) {
        assert((base + suffix).subrange(base.len() as int, (base + suffix).len() as int) =~= suffix);
    }
    assert(ends_with_seq(u, suffix));
    assert(suffix.len() > 0);
    assert(u.last() == suffix.last()) by {
        assert(u[u.len() - 1] == u.subrange(u.len() - suffix.len(), u.len() as int)[suffix.len()
            - 1]);
    }
    assert(suffix.last() == 's');
    assert(strip_end(u, char_pred('/')) == u);
}

/// How many reference images came with a request, as the history shows it:
/// "uploaded:N" and "library:M", the ones that are not zero, joined by ", ";
/// nothing when there were none.
pub open spec fn reference_summary(uploaded: nat, library: nat) -> Option<Seq<char>> {
    let up = "uploaded:"@ + decimal_text(uploaded);
    let lib = "library:"@ + decimal_text(library);
    if uploaded > 0 && library > 0 {
        Some(up + ", "@ + lib)
    } else if uploaded > 0 {
        Some(up)
    } else if library > 0 {
        Some(lib)
    } else {
        None
    }
}

/// The reference summary a generation is stored with (see `reference_summary`).
pub fn build_reference_summary(uploaded_count: usize, library_count: usize) -> (r: Option<String>)
    ensures
        opt_view(r) == reference_summary(uploaded_count as nat, library_count as nat),
{
    let up = String::from_str("uploaded:").concat(decimal_string(uploaded_count as u64).as_str());
    let lib = String::from_str("library:").concat(decimal_string(library_count as u64).as_str());
    if uploaded_count > 0 && library_count > 0 {
        Some(up.concat(", ").concat(lib.as_str()))
    } else if uploaded_count > 0 {
        Some(up)
    } else if library_count > 0 {
        Some(lib)
    } else {
        None
    }
}

/// What an error reply of the provider shows of its body: the trimmed body,
/// cut to its first 2000 characters, or "empty response body".
pub open spec fn remote_error_summary(body: Seq<char>) -> Seq<char> {
    let t = trim_seq(body);
    if t.len() == 0 {
        "empty response body"@
    } else if t.len() <= 2000 {
        t
    } else {
        t.take(2000)
    }
}

/// What an error reply shows of its body (see `remote_error_summary`).
pub fn summarize_remote_error(body: &str) -> (r: String)
    ensures
        r@ == remote_error_summary(body@),
{
    let t = trim(body);
    if t.as_str().is_empty() {
        return String::from_str("empty response body");
    }
    let v = chars_of(t.as_str());
    if v.len() <= 2000 {
        t
    } else {
        string_of_range(&v, 0, 2000)
    }
}

/// The message of a failed exchange with the provider.
pub open spec fn response_error_text(reason: Seq<char>, url: Seq<char>, status: u16, body: Seq<char>) -> Seq<
    char,
> {
    reason + ": url="@ + url + ", status="@ + decimal_text(status as nat) + ", body="@
        + remote_error_summary(body)
}

/// A bad request that tells what went wrong with the provider's reply.
pub fn ai_image_response_error(reason: &str, url: &str, status: u16, body: &str) -> (e: ApiError)
    ensures
        is_bad_request(e, response_error_text(reason@, url@, status, body@)),
{
    let message = String::from_str(reason).concat(": url=").concat(url).concat(", status=").concat(
        decimal_string(status as u64).as_str(),
    ).concat(", body=").concat(summarize_remote_error(body).as_str());
    ApiError::bad_request_text(message)
}

/// The bytes that the `base64` crate's standard engine decodes from `text`,
/// or `None` when it refuses the text.
pub uninterp spec fn base64_decoded(text: Seq<char>) -> Option<Seq<u8>>;

/// `general_purpose::STANDARD.decode` of the `base64` crate. Trusted: the
/// result is `base64_decoded` of the text.
#[verifier::external_body]
fn base64_decode(text: &str) -> (r: Option<Vec<u8>>)
    ensures
        match r {
            Some(b) => base64_decoded(text@) == Some(b@),
            None => base64_decoded(text@) is None,
        },
{
    base64::Engine::decode(&base64::engine::general_purpose::STANDARD, text).ok()
}

/// The image one item of the provider's reply carries: its `b64_json`,
/// trimmed, must be present and decode.
pub open spec fn image_item_outcome(item: Option<String>) -> Result<Seq<u8>, Seq<char>> {
    match trim_optional_spec(opt_view(item)) {
        None => Err("ai image response is missing b64_json"@),
        Some(t) => match base64_decoded(t) {
            Some(b) => Ok(b),
            None => Err("failed to decode ai image response"@),
        },
    }
}

/// The images of the reply's items, in order, or the reason of the first
/// item that fails.
pub open spec fn images_outcome(items: Seq<Option<String>>) -> Result<Seq<Seq<u8>>, Seq<char>>
    decreases items.len(),
{
    if items.len() == 0 {
        Ok(Seq::empty())
    } else {
        match images_outcome(items.drop_last()) {
            Err(r) => Err(r),
            Ok(done) => match image_item_outcome(items.last()) {
                Err(r) => Err(r),
                Ok(b) => Ok(done.push(b)),
            },
        }
    }
}

/// Once an item fails, the outcome of the whole reply is that failure.
pub proof fn lemma_images_outcome_failure_stays(items: Seq<Option<String>>, k: int)
    requires
        0 <= k <= items.len(),
        images_outcome(items.take(k)) is Err,
    ensures
        images_outcome(items) == images_outcome(items.take(k)),
    decreases items.len() - k,
{
    if k < items.len() {
        assert(items.take(k + 1).drop_last() =~= items.take(k));
        lemma_images_outcome_failure_stays(items, k + 1);
    } else {
        assert(items.take(k) =~= items);
    }
}

/// Whether an HTTP status is a success (2xx).
pub open spec fn status_is_success(status: u16) -> bool {
    200 <= status <= 299
}

/// What the provider's reply gives: the images, or the message of the
/// refusal. `parsed` is the list of `b64_json` fields of the reply's `data`
/// items, or `None` when the body is not such a JSON document.
pub open spec fn generation_outcome(
    url: Seq<char>,
    status: u16,
    body: Seq<char>,
    parsed: Option<Seq<Option<String>>>,
) -> Result<Seq<Seq<u8>>, Seq<char>> {
    if !status_is_success(status) {
        Err(response_error_text("upstream request failed"@, url, status, body))
    } else {
        match parsed {
            None => Err(response_error_text("invalid ai image response"@, url, status, body)),
            Some(items) => match images_outcome(items) {
                Err(r) => Err(response_error_text(r, url, status, body)),
                Ok(images) => if images.len() == 0 {
                    Err(
                        response_error_text(
                            "ai image response returned no images"@,
                            url,
                            status,
                            body,
                        ),
                    )
                } else {
                    Ok(images)
                },
            },
        }
    }
}

/// The byte sequences of a list of buffers.
pub open spec fn byte_views(v: Seq<Vec<u8>>) -> Seq<Seq<u8>> {
    v.map_values(|b: Vec<u8>| b@)
}

/// The images of the provider's reply to a request sent to `url`, or the
/// bad request that says why there are none.
#[verifier::loop_isolation(false)]
pub fn generated_images(url: &str, status: u16, body: &str, parsed: Option<Vec<Option<String>>>) -> (r:
    ApiResult<Vec<Vec<u8>>>)
    ensures
        match r {
            Ok(v) => generation_outcome(
                url@,
                status,
                body@,
                match parsed {
                    Some(p) => Some(p@),
                    None => None,
                },
            ) == Ok::<Seq<Seq<u8>>, Seq<char>>(byte_views(v@)),
            Err(e) => generation_outcome(
                url@,
                status,
                body@,
                match parsed {
                    Some(p) => Some(p@),
                    None => None,
                },
            ) matches Err(m) && is_bad_request(e, m),
        },
{
    if !(200 <= status && status <= 299) {
        return Err(ai_image_response_error("upstream request failed", url, status, body));
    }
    let items = match parsed {
        Some(items) => items,
        None => return Err(ai_image_response_error("invalid ai image response", url, status, body)),
    };
    let mut images: Vec<Vec<u8>> = Vec::new();
    let mut i: usize = 0;
    proof {
        assert(items@.take(0) =~= Seq::<Option<String>>::empty());
        assert(byte_views(images@) =~= Seq::<Seq<u8>>::empty());
    }
    while i < items.len()
        invariant
            i <= items@.len(),
            images_outcome(items@.take(i as int)) == Ok::<Seq<Seq<u8>>, Seq<char>>(
                byte_views(images@),
            ),
        decreases items.len() - i,
    {
        proof {
            assert(items@.take(i + 1).drop_last() =~= items@.take(i as int));
            assert(items@.take(i + 1).last() == items@[i as int]);
        }
        let text = match trim_optional(clone_opt(&items[i])) {
            Some(t) => t,
            None => {
                proof {
                    lemma_images_outcome_failure_stays(items@, i + 1);
                }
                return Err(
                    ai_image_response_error("ai image response is missing b64_json", url, status, body),
                );
            },
        };
        let bytes = match base64_decode(text.as_str()) {
            Some(b) => b,
            None => {
                proof {
                    lemma_images_outcome_failure_stays(items@, i + 1);
                }
                return Err(
                    ai_image_response_error("failed to decode ai image response", url, status, body),
                );
            },
        };
        let ghost before = images@;
        images.push(bytes);
        proof {
            assert(byte_views(images@) =~= byte_views(before).push(bytes@));
        }
        i = i + 1;
    }
    proof {
        assert(items@.take(items@.len() as int) =~= items@);
    }
    if images.len() == 0 {
        return Err(
            ai_image_response_error("ai image response returned no images", url, status, body),
        );
    }
    Ok(images)
}

/// The name of a generated image: the time stamp, the output index when it
/// is positive, and a random suffix.
pub open spec fn generated_name(timestamp: Seq<char>, output_index: i32, suffix: Seq<char>) -> Seq<char> {
    if output_index > 0 {
        "ai-image-"@ + timestamp + "-"@ + int_text(output_index as int) + "-"@ + suffix + ".png"@
    } else {
        "ai-image-"@ + timestamp + "-"@ + suffix + ".png"@
    }
}

/// The name of a generated image from its parts.
pub fn generated_filename_from(timestamp: &str, output_index: i32, suffix: &str) -> (r: String)
    ensures
        r@ == generated_name(timestamp@, output_index, suffix@),
{
    let head = String::from_str("ai-image-").concat(timestamp).concat("-");
    if output_index > 0 {
        head.concat(i32_string(output_index).as_str()).concat("-").concat(suffix).concat(".png")
    } else {
        head.concat(suffix).concat(".png")
    }
}

/// A fresh name for a generated image: the current UTC time (year, month,
/// day, hour, minute and second digits) and a random UUID in its 32-digit
/// form.
pub fn generated_filename(output_index: i32) -> (r: String)
    ensures
        exists|timestamp: Seq<char>, suffix: Seq<char>|
            #![trigger generated_name(timestamp, output_index, suffix)]
            clock_digits(timestamp, 10) && suffix.len() == 32 && (forall|i: int|
                0 <= i < 32 ==> is_lower_hex_digit(#[trigger] suffix[i])) && r@ == generated_name(
                timestamp,
                output_index,
                suffix,
            ),
{
    let timestamp = utc_now_compact();
    let suffix = new_simple_uuid();
    let r = generated_filename_from(timestamp.as_str(), output_index, suffix.as_str());
    assert(clock_digits(timestamp@, 10) && suffix@.len() == 32 && r@ == generated_name(
        timestamp@,
        output_index,
        suffix@,
    ));
    r
}

/// The parts of a generation request's multipart form.
#[derive(Clone, Copy, Debug, PartialEq, Eq, Structural)]
pub enum PayloadField {
    ConfigKey,
    Prompt,
    Model,
    Size,
    Quality,
    Count,
    ReferenceUploadId,
    Image,
    Other,
}

/// Which part a form field of the given name is.
pub open spec fn payload_field_of(name: Seq<char>) -> PayloadField {
    if name == "config_key"@ {
        PayloadField::ConfigKey
    } else if name == "prompt"@ {
        PayloadField::Prompt
    } else if name == "model"@ {
        PayloadField::Model
    } else if name == "size"@ {
        PayloadField::Size
    } else if name == "quality"@ {
        PayloadField::Quality
    } else if name == "n"@ {
        PayloadField::Count
    } else if name == "reference_upload_ids"@ || name == "reference_upload_ids[]"@ {
        PayloadField::ReferenceUploadId
    } else if name == "image"@ {
        PayloadField::Image
    } else {
        PayloadField::Other
    }
}

/// The part of the generation form that a multipart field name stands for.
pub fn payload_field(name: &str) -> (f: PayloadField)
    ensures
        f == payload_field_of(name@),
{
    if str_eq(name, "config_key") {
        PayloadField::ConfigKey
    } else if str_eq(name, "prompt") {
        PayloadField::Prompt
    } else if str_eq(name, "model") {
        PayloadField::Model
    } else if str_eq(name, "size") {
        PayloadField::Size
    } else if str_eq(name, "quality") {
        PayloadField::Quality
    } else if str_eq(name, "n") {
        PayloadField::Count
    } else if str_eq(name, "reference_upload_ids") || str_eq(name, "reference_upload_ids[]") {
        PayloadField::ReferenceUploadId
    } else if str_eq(name, "image") {
        PayloadField::Image
    } else {
        PayloadField::Other
    }
}

/// The message when a field's content cannot be read; nothing is read of
/// other fields.
pub open spec fn read_failure_text(field: PayloadField) -> Option<Seq<char>> {
    match field {
        PayloadField::ConfigKey => Some("failed to read config_key"@),
        PayloadField::Prompt => Some("failed to read prompt"@),
        PayloadField::Model => Some("failed to read model"@),
        PayloadField::Size => Some("failed to read size"@),
        PayloadField::Quality => Some("failed to read quality"@),
        PayloadField::Count => Some("failed to read n"@),
        PayloadField::ReferenceUploadId => Some("failed to read reference_upload_ids"@),
        PayloadField::Image => Some("failed to read uploaded file"@),
        PayloadField::Other => None,
    }
}

/// The message of a form part that could not be read, for the parts that are read.
pub fn read_failure_message(field: PayloadField) -> (r: Option<String>)
    ensures
        opt_view(r) == read_failure_text(field),
{
    let text = match field {
        PayloadField::ConfigKey => "failed to read config_key",
        PayloadField::Prompt => "failed to read prompt",
        PayloadField::Model => "failed to read model",
        PayloadField::Size => "failed to read size",
        PayloadField::Quality => "failed to read quality",
        PayloadField::Count => "failed to read n",
        PayloadField::ReferenceUploadId => "failed to read reference_upload_ids",
        PayloadField::Image => "failed to read uploaded file",
        PayloadField::Other => return None,
    };
    Some(String::from_str(text))
}

/// A reference image sent with, or chosen for, a generation request.
#[derive(Debug)]
pub struct UploadedReferenceImage {
    pub original_name: String,
    pub mime_type: Option<String>,
    pub bytes: Vec<u8>,
}

/// The name an uploaded reference image is kept under: its sanitized file
/// name, or "reference.png" when it came without one.
pub open spec fn reference_name(file_name: Option<Seq<char>>) -> Seq<char> {
    match file_name {
        Some(n) => if sanitized_file_name(n).len() > 0 {
            sanitized_file_name(n)
        } else {
            "reference.png"@
        },
        None => "reference.png"@,
    }
}

/// An uploaded reference image: its file name, or "reference.png" when it has none.
pub fn reference_image(file_name: Option<&str>, mime_type: Option<String>, bytes: Vec<u8>) -> (r:
    UploadedReferenceImage)
    ensures
        r.original_name@ == reference_name(
            match file_name {
                Some(n) => Some(n@),
                None => None,
            },
        ),
        r.mime_type == mime_type,
        r.bytes == bytes,
{
    let original_name = match file_name {
        Some(n) => {
            let s = sanitize_filename(n);
            if s.as_str().is_empty() {
                String::from_str("reference.png")
            } else {
                s
            }
        },
        None => String::from_str("reference.png"),
    };
    UploadedReferenceImage { original_name, mime_type, bytes }
}

/// A generation request as read from its form, before its checks.
#[derive(Debug)]
pub struct GenerationPayloadForm {
    pub config_key: Option<String>,
    pub prompt: Option<String>,
    pub model: Option<String>,
    pub size: Option<String>,
    pub quality: Option<String>,
    pub n: Option<u32>,
    pub reference_upload_ids: Vec<i32>,
    pub uploaded_images: Vec<UploadedReferenceImage>,
}

/// A checked generation request.
#[derive(Debug)]
pub struct GenerationPayload {
    pub config_key: String,
    pub prompt: String,
    pub model: Option<String>,
    pub size: Option<String>,
    pub quality: Option<String>,
    pub n: Option<u32>,
    pub reference_upload_ids: Vec<i32>,
    pub uploaded_images: Vec<UploadedReferenceImage>,
}

/// Why a read form is refused, checked in the order the fields are built.
pub open spec fn payload_problem(form: GenerationPayloadForm) -> Option<Seq<char>> {
    match form.config_key {
        None => Some("config_key is required"@),
        Some(k) => if config_key_problem(k@) is Some {
            config_key_problem(k@)
        } else {
            match form.prompt {
                None => Some("prompt is required"@),
                Some(p) => if trim_seq(p@).len() == 0 {
                    Some(required_message("prompt"@))
                } else {
                    None
                },
            }
        },
    }
}

impl GenerationPayloadForm {
    /// An empty form.
    pub fn new() -> (f: GenerationPayloadForm)
        ensures
            f.config_key is None && f.prompt is None && f.model is None && f.size is None
                && f.quality is None && f.n is None,
            f.reference_upload_ids@.len() == 0,
            f.uploaded_images@.len() == 0,
    {
        GenerationPayloadForm {
            config_key: None,
            prompt: None,
            model: None,
            size: None,
            quality: None,
            n: None,
            reference_upload_ids: Vec::new(),
            uploaded_images: Vec::new(),
        }
    }

    /// Takes in the text of one field: text fields are kept (a later one
    /// replaces an earlier one), the count is parsed, reference ids are
    /// parsed and collected, and other fields are ignored.
    pub fn accept_text(&mut self, field: PayloadField, value: String) -> (r: ApiResult<()>)
        requires
            field != PayloadField::Image,
        ensures
            match field {
                PayloadField::ConfigKey => r is Ok && *final(self) == (GenerationPayloadForm {
                    config_key: Some(value),
                    ..*old(self)
                }),
                PayloadField::Prompt => r is Ok && *final(self) == (GenerationPayloadForm {
                    prompt: Some(value),
                    ..*old(self)
                }),
                PayloadField::Model => r is Ok && *final(self) == (GenerationPayloadForm {
                    model: Some(value),
                    ..*old(self)
                }),
                PayloadField::Size => r is Ok && *final(self) == (GenerationPayloadForm {
                    size: Some(value),
                    ..*old(self)
                }),
                PayloadField::Quality => r is Ok && *final(self) == (GenerationPayloadForm {
                    quality: Some(value),
                    ..*old(self)
                }),
                PayloadField::Count => match u32_text_value(value@) {
                    Some(n) => r is Ok && *final(self) == (GenerationPayloadForm {
                        n: Some(n),
                        ..*old(self)
                    }),
                    None => *final(self) == *old(self) && (r matches Err(e) && is_bad_request(
                        e,
                        "invalid "@ + "n"@,
                    )),
                },
                PayloadField::ReferenceUploadId => match i32_text_value(value@) {
                    Some(id) => {
                        &&& r is Ok
                        &&& final(self).reference_upload_ids@ == old(
                            self,
                        ).reference_upload_ids@.push(id)
                        &&& final(self).config_key == old(self).config_key
                        &&& final(self).prompt == old(self).prompt
                        &&& final(self).model == old(self).model
                        &&& final(self).size == old(self).size
                        &&& final(self).quality == old(self).quality
                        &&& final(self).n == old(self).n
                        &&& final(self).uploaded_images == old(self).uploaded_images
                    },
                    None => *final(self) == *old(self) && (r matches Err(e) && is_bad_request(
                        e,
                        "invalid "@ + "reference_upload_ids"@,
                    )),
                },
                _ => r is Ok && *final(self) == *old(self),
            },
    {
        match field {
            PayloadField::ConfigKey => {
                self.config_key = Some(value);
                Ok(())
            },
            PayloadField::Prompt => {
                self.prompt = Some(value);
                Ok(())
            },
            PayloadField::Model => {
                self.model = Some(value);
                Ok(())
            },
            PayloadField::Size => {
                self.size = Some(value);
                Ok(())
            },
            PayloadField::Quality => {
                self.quality = Some(value);
                Ok(())
            },
            PayloadField::Count => {
                match parse_u32(value.as_str(), "n") {
                    Ok(n) => {
                        self.n = Some(n);
                        Ok(())
                    },
                    Err(e) => Err(e),
                }
            },
            PayloadField::ReferenceUploadId => {
                match parse_i32(value.as_str(), "reference_upload_ids") {
                    Ok(id) => {
                        self.reference_upload_ids.push(id);
                        Ok(())
                    },
                    Err(e) => Err(e),
                }
            },
            _ => Ok(()),
        }
    }

    /// Adds an uploaded reference image.
    pub fn add_image(&mut self, image: UploadedReferenceImage)
        ensures
            final(self).uploaded_images@ == old(self).uploaded_images@.push(image),
            final(self).reference_upload_ids == old(self).reference_upload_ids,
            final(self).config_key == old(self).config_key,
            final(self).prompt == old(self).prompt,
            final(self).model == old(self).model,
            final(self).size == old(self).size,
            final(self).quality == old(self).quality,
            final(self).n == old(self).n,
    {
        self.uploaded_images.push(image);
    }

    /// The checked request: the key is required and valid, the prompt is
    /// required and trimmed, the optional texts are trimmed (blank ones
    /// dropped); the count, the reference ids and images are kept.
    pub fn finish(self) -> (r: ApiResult<GenerationPayload>)
        ensures
            match r {
                Ok(p) => {
                    &&& payload_problem(self) is None
                    &&& self.config_key matches Some(k) && p.config_key@ == trim_seq(k@)
                    &&& self.prompt matches Some(q) && p.prompt@ == trim_seq(q@)
                    &&& opt_view(p.model) == trim_optional_spec(opt_view(self.model))
                    &&& opt_view(p.size) == trim_optional_spec(opt_view(self.size))
                    &&& opt_view(p.quality) == trim_optional_spec(opt_view(self.quality))
                    &&& p.n == self.n
                    &&& p.reference_upload_ids == self.reference_upload_ids
                    &&& p.uploaded_images == self.uploaded_images
                },
                Err(e) => payload_problem(self) matches Some(m) && is_bad_request(e, m),
            },
    {
        let config_key = match self.config_key {
            Some(k) => match normalize_config_key(k.as_str()) {
                Ok(k) => k,
                Err(e) => return Err(e),
            },
            None => return Err(ApiError::bad_request("config_key is required")),
        };
        let prompt = match self.prompt {
            Some(p) => match normalize_required_text(p.as_str(), "prompt") {
                Ok(p) => p,
                Err(e) => return Err(e),
            },
            None => return Err(ApiError::bad_request("prompt is required")),
        };
        Ok(
            GenerationPayload {
                config_key,
                prompt,
                model: trim_optional(self.model),
                size: trim_optional(self.size),
                quality: trim_optional(self.quality),
                n: self.n,
                reference_upload_ids: self.reference_upload_ids,
                uploaded_images: self.uploaded_images,
            },
        )
    }
}

/// How a configuration keeps what it generates.
#[derive(Clone, Copy, Debug, PartialEq, Eq, Structural)]
pub enum SaveMode {
    Local,
    Storage,
}

/// The save mode a configuration names; "local" and "storage" are the only ones.
pub fn save_mode_of(mode: &str) -> (r: ApiResult<SaveMode>)
    ensures
        mode@ == "local"@ ==> r == Ok::<SaveMode, ApiError>(SaveMode::Local),
        mode@ == "storage"@ ==> r == Ok::<SaveMode, ApiError>(SaveMode::Storage),
        !(mode@ == "local"@ || mode@ == "storage"@) ==> (r matches Err(e) && is_bad_request(
            e,
            "invalid ai image save mode"@,
        )),
{
    proof {
        reveal_strlit("local");
        reveal_strlit("storage");
        assert("local"@.len() != "storage"@.len());
    }
    if str_eq(mode, "local") {
        Ok(SaveMode::Local)
    } else if str_eq(mode, "storage") {
        Ok(SaveMode::Storage)
    } else {
        Err(ApiError::bad_request("invalid ai image save mode"))
    }
}

/// The directory a local configuration writes into; it must be set and not
/// empty.
pub fn local_output_dir(config: &AiImageConfig) -> (r: ApiResult<String>)
    ensures
        match r {
            Ok(d) => config.local_output_dir == Some(d) && d@.len() > 0,
            Err(e) => (config.local_output_dir is None || config.local_output_dir->0@.len() == 0)
                && is_bad_request(e, "local output directory is required"@),
        },
{
    match &config.local_output_dir {
        Some(d) => {
            if d.as_str().is_empty() {
                Err(ApiError::bad_request("local output directory is required"))
            } else {
                Ok(d.clone())
            }
        },
        None => Err(ApiError::bad_request("local output directory is required")),
    }
}

/// The bucket a storage configuration writes into.
pub fn storage_bucket_of(config: &AiImageConfig) -> (r: ApiResult<i32>)
    ensures
        match r {
            Ok(b) => config.storage_bucket_id == Some(b),
            Err(e) => config.storage_bucket_id is None && is_bad_request(
                e,
                "storage bucket is required"@,
            ),
        },
{
    match config.storage_bucket_id {
        Some(b) => Ok(b),
        None => Err(ApiError::bad_request("storage bucket is required")),
    }
}

/// Where one generated image was kept.
#[derive(Debug)]
pub struct SavedGenerationAsset {
    pub storage_profile_id: Option<i32>,
    pub storage_bucket_id: Option<i32>,
    pub output_upload_file_id: Option<i32>,
    pub local_output_path: Option<String>,
    pub original_name: String,
    pub mime_type: Option<String>,
}

/// An image written to `path` under the name `file_name`.
pub fn local_asset(path: String, file_name: String) -> (a: SavedGenerationAsset)
    ensures
        a.storage_profile_id is None && a.storage_bucket_id is None && a.output_upload_file_id is None,
        a.local_output_path == Some(path),
        a.original_name == file_name,
        opt_view(a.mime_type) == Some(GENERATED_MIME_TYPE@),
{
    SavedGenerationAsset {
        storage_profile_id: None,
        storage_bucket_id: None,
        output_upload_file_id: None,
        local_output_path: Some(path),
        original_name: file_name,
        mime_type: Some(String::from_str(GENERATED_MIME_TYPE)),
    }
}

/// The number of reference images as stored: `i32::try_from(n)`, or
/// `i32::MAX` past it.
pub fn count_i32(n: usize) -> (r: i32)
    ensures
        r == if n <= i32::MAX { n as i32 } else { i32::MAX },
{
    if n <= 2147483647usize {
        n as i32
    } else {
        2147483647i32
    }
}

/// The reference images a generation request sends: the uploaded ones,
/// then the library ones, with their number as the record stores it
/// (saturating at `i32::MAX`).
pub fn generation_request_images(
    uploaded: Vec<UploadedReferenceImage>,
    library: Vec<UploadedReferenceImage>,
) -> (r: (Vec<UploadedReferenceImage>, i32))
    ensures
        r.0@ == uploaded@ + library@,
        r.1 == if uploaded@.len() + library@.len() <= i32::MAX {
            (uploaded@.len() + library@.len()) as i32
        } else {
            i32::MAX
        },
{
    let mut images = uploaded;
    let mut rest = library;
    images.append(&mut rest);
    let count = count_i32(images.len());
    (images, count)
}

/// A generation as it is recorded.
#[derive(Debug)]
pub struct NewGeneration {
    pub batch_id: String,
    pub config_key: String,
    pub config_name: String,
    pub prompt: String,
    pub model: String,
    pub size: String,
    pub quality: String,
    pub output_index: i32,
    pub save_mode: String,
    pub storage_profile_id: Option<i32>,
    pub storage_bucket_id: Option<i32>,
    pub output_upload_file_id: Option<i32>,
    pub local_output_path: Option<String>,
    pub original_name: String,
    pub mime_type: Option<String>,
    pub status: String,
    pub error_message: Option<String>,
    pub reference_summary: Option<String>,
    pub reference_count: i32,
    pub created_by: Option<i32>,
}

/// The record of one generated image that was kept as `asset`.
pub fn succeeded_generation(
    batch_id: &str,
    config: &AiImageConfig,
    params: &EffectiveGenerationParams,
    output_index: i32,
    asset: SavedGenerationAsset,
    reference_summary: Option<String>,
    reference_count: i32,
    user_id: i32,
) -> (g: NewGeneration)
    ensures
        g.batch_id@ == batch_id@,
        g.config_key == config.key && g.config_name == config.name,
        g.prompt == params.prompt && g.model == params.model && g.size == params.size
            && g.quality == params.quality,
        g.output_index == output_index,
        g.save_mode == config.save_mode,
        g.storage_profile_id == asset.storage_profile_id,
        g.storage_bucket_id == asset.storage_bucket_id,
        g.output_upload_file_id == asset.output_upload_file_id,
        g.local_output_path == asset.local_output_path,
        g.original_name == asset.original_name,
        g.mime_type == asset.mime_type,
        g.status@ == "success"@,
        g.error_message is None,
        g.reference_summary == reference_summary,
        g.reference_count == reference_count,
        g.created_by == Some(user_id),
{
    NewGeneration {
        batch_id: String::from_str(batch_id),
        config_key: config.key.clone(),
        config_name: config.name.clone(),
        prompt: params.prompt.clone(),
        model: params.model.clone(),
        size: params.size.clone(),
        quality: params.quality.clone(),
        output_index,
        save_mode: config.save_mode.clone(),
        storage_profile_id: asset.storage_profile_id,
        storage_bucket_id: asset.storage_bucket_id,
        output_upload_file_id: asset.output_upload_file_id,
        local_output_path: asset.local_output_path,
        original_name: asset.original_name,
        mime_type: asset.mime_type,
        status: String::from_str("success"),
        error_message: None,
        reference_summary,
        reference_count,
        created_by: Some(user_id),
    }
}

/// The record of a generation that failed with `error`: nothing was kept,
/// the output index is 0 and the name a fresh one without index.
pub fn failed_generation(
    batch_id: &str,
    config: &AiImageConfig,
    params: &EffectiveGenerationParams,
    reference_summary: Option<String>,
    reference_count: i32,
    error: &ApiError,
    user_id: i32,
) -> (g: NewGeneration)
    ensures
        g.batch_id@ == batch_id@,
        g.config_key == config.key && g.config_name == config.name,
        g.prompt == params.prompt && g.model == params.model && g.size == params.size
            && g.quality == params.quality,
        g.output_index == 0,
        g.save_mode == config.save_mode,
        g.storage_profile_id is None && g.storage_bucket_id is None && g.output_upload_file_id is None
            && g.local_output_path is None,
        exists|timestamp: Seq<char>, suffix: Seq<char>|
            #![trigger generated_name(timestamp, 0, suffix)]
            suffix.len() == 32 && g.original_name@ == generated_name(timestamp, 0, suffix),
        opt_view(g.mime_type) == Some(GENERATED_MIME_TYPE@),
        g.status@ == "failed"@,
        opt_view(g.error_message) == Some(error.message@),
        g.reference_summary == reference_summary,
        g.reference_count == reference_count,
        g.created_by == Some(user_id),
{
    let original_name = generated_filename(0);
    NewGeneration {
        batch_id: String::from_str(batch_id),
        config_key: config.key.clone(),
        config_name: config.name.clone(),
        prompt: params.prompt.clone(),
        model: params.model.clone(),
        size: params.size.clone(),
        quality: params.quality.clone(),
        output_index: 0,
        save_mode: config.save_mode.clone(),
        storage_profile_id: None,
        storage_bucket_id: None,
        output_upload_file_id: None,
        local_output_path: None,
        original_name,
        mime_type: Some(String::from_str(GENERATED_MIME_TYPE)),
        status: String::from_str("failed"),
        error_message: Some(error.message()),
        reference_summary,
        reference_count,
        created_by: Some(user_id),
    }
}

/// A copy of a configuration.
pub fn copy_config(c: &AiImageConfig) -> (r: AiImageConfig)
    ensures
        r == *c,
{
    AiImageConfig {
        key: c.key.clone(),
        name: c.name.clone(),
        enabled: c.enabled,
        base_url: c.base_url.clone(),
        api_key: c.api_key.clone(),
        model: c.model.clone(),
        size: c.size.clone(),
        quality: c.quality.clone(),
        n: c.n,
        save_mode: c.save_mode.clone(),
        local_output_dir: clone_opt(&c.local_output_dir),
        storage_bucket_id: c.storage_bucket_id,
        storage_prefix: clone_opt(&c.storage_prefix),
        description: clone_opt(&c.description),
    }
}

/// Holds when `configs` holds a configuration with key `key`.
pub open spec fn has_config_key(configs: Seq<AiImageConfig>, key: Seq<char>) -> bool {
    exists|i: int| 0 <= i < configs.len() && (#[trigger] configs[i]).key@ == key
}

/// No two configurations share a key.
pub open spec fn config_keys_unique(configs: Seq<AiImageConfig>) -> bool {
    forall|i: int, j: int|
        0 <= i < configs.len() && 0 <= j < configs.len() && i != j ==> (#[trigger] configs[i]).key@
            != (#[trigger] configs[j]).key@
}

/// `configs` without the configurations whose key is `key`, in order.
pub open spec fn without_config(configs: Seq<AiImageConfig>, key: Seq<char>) -> Seq<AiImageConfig>
    decreases configs.len(),
{
    if configs.len() == 0 {
        Seq::empty()
    } else if configs[0].key@ == key {
        without_config(configs.drop_first(), key)
    } else {
        seq![configs[0]] + without_config(configs.drop_first(), key)
    }
}

/// Where the configuration with key `key` stands.
fn config_position(configs: &Vec<AiImageConfig>, key: &str) -> (r: Option<usize>)
    ensures
        match r {
            Some(i) => i < configs@.len() && configs@[i as int].key@ == key@ && forall|j: int|
                0 <= j < i ==> (#[trigger] configs@[j]).key@ != key@,
            None => !has_config_key(configs@, key@),
        },
{
    let mut i: usize = 0;
    while i < configs.len()
        invariant
            i <= configs@.len(),
            forall|j: int| 0 <= j < i ==> (#[trigger] configs@[j]).key@ != key@,
        decreases configs.len() - i,
    {
        if str_eq(configs[i].key.as_str(), key) {
            return Some(i);
        }
        i = i + 1;
    }
    None
}

/// Whether a configuration other than the one at `position` has key `key`.
fn key_taken_elsewhere(configs: &Vec<AiImageConfig>, position: usize, key: &str) -> (b: bool)
    ensures
        b == exists|k: int|
            0 <= k < configs@.len() && k != position && (#[trigger] configs@[k]).key@ == key@,
{
    let mut j: usize = 0;
    while j < configs.len()
        invariant
            j <= configs@.len(),
            forall|k: int| 0 <= k < j && k != position ==> (#[trigger] configs@[k]).key@ != key@,
        decreases configs.len() - j,
    {
        if j != position && str_eq(configs[j].key.as_str(), key) {
            return true;
        }
        j = j + 1;
    }
    false
}

/// Adds a new configuration, unless one with its key exists ("ai image
/// config key already exists").
pub fn add_config(configs: &mut Vec<AiImageConfig>, config: AiImageConfig) -> (r: ApiResult<()>)
    ensures
        r is Ok <==> !has_config_key(old(configs)@, config.key@),
        r is Ok ==> final(configs)@ == old(configs)@.push(config),
        r is Err ==> final(configs)@ == old(configs)@,
        r matches Err(e) ==> is_bad_request(e, "ai image config key already exists"@),
{
    match config_position(configs, config.key.as_str()) {
        Some(_) => Err(ApiError::bad_request("ai image config key already exists")),
        None => {
            configs.push(config);
            Ok(())
        },
    }
}

/// Holds when `i` is the first position of a configuration with key `key`.
pub open spec fn first_config_at(configs: Seq<AiImageConfig>, key: Seq<char>, i: int) -> bool {
    &&& 0 <= i < configs.len()
    &&& configs[i].key@ == key
    &&& forall|j: int| 0 <= j < i ==> (#[trigger] configs[j]).key@ != key
}

/// Holds when a configuration other than the one at `i` has key `key`.
pub open spec fn key_taken_by_other(configs: Seq<AiImageConfig>, i: int, key: Seq<char>) -> bool {
    exists|k: int| 0 <= k < configs.len() && k != i && (#[trigger] configs[k]).key@ == key
}

/// Saves `params` over the configuration with key `key`: it must exist
/// ("ai image config not found"), `params` must make a valid configuration
/// over it, and its new (trimmed) key may not be another configuration's
/// ("ai image config key already exists"). Gives the saved configuration,
/// which replaces the first configuration with key `key`.
pub fn replace_config(configs: &mut Vec<AiImageConfig>, key: &str, params: &SaveAiImageConfigParams) -> (r:
    ApiResult<AiImageConfig>)
    ensures
        r is Ok <==> exists|i: int|
            #[trigger] first_config_at(old(configs)@, key@, i) && config_problem(
                *params,
                Some(old(configs)@[i]),
            ) is None && !key_taken_by_other(old(configs)@, i, trim_seq(params.key@)),
        !has_config_key(old(configs)@, key@) ==> (r matches Err(e) && is_bad_request(
            e,
            "ai image config not found"@,
        )),
        forall|i: int| #[trigger]
            first_config_at(old(configs)@, key@, i) ==> match config_problem(
                *params,
                Some(old(configs)@[i]),
            ) {
                Some(m) => r matches Err(e) && is_bad_request(e, m),
                None => if key_taken_by_other(old(configs)@, i, trim_seq(params.key@)) {
                    r matches Err(e) && is_bad_request(e, "ai image config key already exists"@)
                } else {
                    r matches Ok(c) && saved_config(c, *params, Some(old(configs)@[i]))
                        && final(configs)@ == old(configs)@.update(i, c)
                },
            },
        r is Err ==> final(configs)@ == old(configs)@,
        r matches Ok(c) ==> exists|i: int|
            #![trigger old(configs)@[i]]
            0 <= i < old(configs)@.len() && old(configs)@[i].key@ == key@ && (forall|j: int|
                0 <= j < i ==> (#[trigger] old(configs)@[j]).key@ != key@) && config_problem(
                *params,
                Some(old(configs)@[i]),
            ) is None && saved_config(c, *params, Some(old(configs)@[i])) && (forall|j: int|
                0 <= j < old(configs)@.len() && j != i ==> (#[trigger] old(configs)@[j]).key@
                    != c.key@) && final(configs)@ == old(configs)@.update(i, c),
{
    let ghost before = configs@;
    let position = match config_position(configs, key) {
        Some(p) => p,
        None => {
            proof {
                assert forall|i: int| #[trigger] first_config_at(before, key@, i) implies false by {
                    assert(before[i].key@ == key@);
                }
            }
            return Err(ApiError::bad_request("ai image config not found"));
        },
    };
    proof {
        assert(first_config_at(before, key@, position as int));
        // The first position of a key is unique.
        assert forall|i: int| #[trigger] first_config_at(before, key@, i) implies i
            == position by {
            if i < position {
                assert(before[i].key@ != key@);
            }
            if i > position {
                assert(before[position as int].key@ != key@);
            }
        }
    }
    let config = match build_config(params, Some(&configs[position])) {
        Ok(c) => c,
        Err(e) => return Err(e),
    };
    if key_taken_elsewhere(configs, position, config.key.as_str()) {
        return Err(ApiError::bad_request("ai image config key already exists"));
    }
    let saved = copy_config(&config);
    configs.set(position, config);
    Ok(saved)
}

/// Deletes the configuration with key `key`; fails with "ai image config
/// not found" when there is none.
pub fn remove_config(configs: &mut Vec<AiImageConfig>, key: &str) -> (r: ApiResult<()>)
    ensures
        r is Ok <==> has_config_key(old(configs)@, key@),
        r is Ok ==> final(configs)@ == without_config(old(configs)@, key@),
        r is Err ==> final(configs)@ == old(configs)@,
        r matches Err(e) ==> is_bad_request(e, "ai image config not found"@),
{
    if config_position(configs, key).is_none() {
        return Err(ApiError::bad_request("ai image config not found"));
    }
    let ghost start = configs@;
    let mut kept: Vec<AiImageConfig> = Vec::new();
    while configs.len() > 0
        invariant
            kept@ + without_config(configs@, key@) == without_config(start, key@),
        decreases configs.len(),
    {
        let ghost before = configs@;
        let c = configs.remove(0);
        assert(before.drop_first() =~= configs@);
        if !str_eq(c.key.as_str(), key) {
            let ghost k0 = kept@;
            kept.push(c);
            assert(kept@ + without_config(configs@, key@) =~= k0 + (seq![before[0]] + without_config(
                configs@,
                key@,
            )));
        }
    }
    assert(without_config(configs@, key@) =~= Seq::<AiImageConfig>::empty());
    assert(kept@ =~= without_config(start, key@));
    *configs = kept;
    Ok(())
}

/// What `without_config` keeps.
pub proof fn lemma_without_config(configs: Seq<AiImageConfig>, key: Seq<char>)
    ensures
        forall|c: AiImageConfig|
            #[trigger] without_config(configs, key).contains(c) ==> (configs.contains(c) && c.key@
                != key),
        config_keys_unique(configs) ==> config_keys_unique(without_config(configs, key)),
    decreases configs.len(),
{
    if configs.len() > 0 {
        let rest = configs.drop_first();
        lemma_without_config(rest, key);
        let w = without_config(configs, key);
        let wr = without_config(rest, key);
        assert forall|c: AiImageConfig| #[trigger] w.contains(c) implies (configs.contains(c) && c.key@
            != key) by {
            let i = choose|i: int| 0 <= i < w.len() && w[i] == c;
            if configs[0].key@ != key && i == 0 {
                assert(configs[0] == c);
            } else {
                let k = if configs[0].key@ != key { i - 1 } else { i };
                assert(wr[k] == c);
                assert(wr.contains(c));
                let m = choose|m: int| 0 <= m < rest.len() && rest[m] == c;
                assert(configs[m + 1] == c);
            }
        }
        if config_keys_unique(configs) {
            assert forall|i: int, j: int|
                0 <= i < rest.len() && 0 <= j < rest.len() && i != j implies (
                #[trigger] rest[i]).key@ != (#[trigger] rest[j]).key@ by {
                assert(rest[i] == configs[i + 1] && rest[j] == configs[j + 1]);
            }
            assert(config_keys_unique(wr));
            if configs[0].key@ != key {
                assert forall|i: int, j: int|
                    0 <= i < w.len() && 0 <= j < w.len() && i != j implies (#[trigger] w[i]).key@
                    != (#[trigger] w[j]).key@ by {
                    if i == 0 || j == 0 {
                        let other = if i == 0 { j } else { i };
                        let x = w[other];
                        assert(wr[other - 1] == x);
                        assert(wr.contains(x));
                        assert(rest.contains(x));
                        let m = choose|m: int| 0 <= m < rest.len() && rest[m] == x;
                        assert(configs[m + 1] == x);
                        assert(configs[0].key@ != configs[m + 1].key@);
                    } else {
                        assert(w[i] == wr[i - 1] && w[j] == wr[j - 1]);
                    }
                }
            }
        }
    }
}

/// Law: saving configurations keeps their keys unique. Adding one whose key
/// is new, replacing one by a configuration whose key no other one has, and
/// deleting by key each leave no two configurations with the same key; after
/// a deletion, no configuration has the deleted key.
pub proof fn law_config_keys_stay_unique(
    configs: Seq<AiImageConfig>,
    c: AiImageConfig,
    i: int,
    key: Seq<char>,
)
    requires
        config_keys_unique(configs),
    ensures
        !has_config_key(configs, c.key@) ==> config_keys_unique(configs.push(c)),
        (0 <= i < configs.len() && forall|j: int|
            0 <= j < configs.len() && j != i ==> (#[trigger] configs[j]).key@ != c.key@)
            ==> config_keys_unique(configs.update(i, c)),
        config_keys_unique(without_config(configs, key)),
        !has_config_key(without_config(configs, key), key),
{
    lemma_without_config(configs, key);
    let w = without_config(configs, key);
    if has_config_key(w, key) {
        let k = choose|k: int| 0 <= k < w.len() && (#[trigger] w[k]).key@ == key;
        assert(w.contains(w[k]));
        assert(w[k].key@ != key);
    }
    if !has_config_key(configs, c.key@) {
        let p = configs.push(c);
        assert forall|a: int, b: int|
            0 <= a < p.len() && 0 <= b < p.len() && a != b implies (#[trigger] p[a]).key@
            != (#[trigger] p[b]).key@ by {
            if a < configs.len() && b < configs.len() {
                assert(p[a] == configs[a] && p[b] == configs[b]);
            } else if a < configs.len() {
                assert(p[a] == configs[a]);
            } else {
                assert(p[b] == configs[b]);
            }
        }
    }
    if 0 <= i < configs.len() && forall|j: int|
        0 <= j < configs.len() && j != i ==> (#[trigger] configs[j]).key@ != c.key@ {
        let u = configs.update(i, c);
        assert forall|a: int, b: int|
            0 <= a < u.len() && 0 <= b < u.len() && a != b implies (#[trigger] u[a]).key@
            != (#[trigger] u[b]).key@ by {
            if a != i && b != i {
                assert(u[a] == configs[a] && u[b] == configs[b]);
            } else if a == i {
                assert(u[b] == configs[b]);
            } else {
                assert(u[a] == configs[a]);
            }
        }
    }
}

/// The configuration a generation request names: the first with its key,
/// which must exist ("ai image config not found") and be enabled ("ai image
/// config is disabled").
pub fn select_generation_config(configs: &Vec<AiImageConfig>, key: &str) -> (r: ApiResult<AiImageConfig>)
    ensures
        match r {
            Ok(c) => exists|i: int|
                0 <= i < configs@.len() && (#[trigger] configs@[i]) == c && c.key@ == key@ && c.enabled
                    && forall|j: int| 0 <= j < i ==> (#[trigger] configs@[j]).key@ != key@,
            Err(e) => {
                ||| !has_config_key(configs@, key@) && is_bad_request(e, "ai image config not found"@)
                ||| exists|i: int|
                    0 <= i < configs@.len() && (#[trigger] configs@[i]).key@ == key@ && !configs@[i].enabled
                        && (forall|j: int| 0 <= j < i ==> (#[trigger] configs@[j]).key@ != key@)
                        && is_bad_request(e, "ai image config is disabled"@)
            },
        },
{
    let position = match config_position(configs, key) {
        Some(p) => p,
        None => return Err(ApiError::bad_request("ai image config not found")),
    };
    if !configs[position].enabled {
        return Err(ApiError::bad_request("ai image config is disabled"));
    }
    Ok(copy_config(&configs[position]))
}

/// One generated image (or failed attempt) as the API shows it.
#[derive(Debug)]
pub struct AiImageGenerationRecord {
    pub id: i32,
    pub batch_id: String,
    pub config_key: String,
    pub config_name: String,
    pub prompt: String,
    pub model: String,
    pub size: String,
    pub quality: String,
    pub output_index: i32,
    pub save_mode: String,
    pub storage_profile_id: Option<i32>,
    pub storage_bucket_id: Option<i32>,
    pub output_upload_file_id: Option<i32>,
    pub local_output_path: Option<String>,
    pub original_name: String,
    pub mime_type: Option<String>,
    pub status: String,
    pub error_message: Option<String>,
    pub reference_summary: Option<String>,
    pub reference_count: i32,
    pub created_at: String,
    pub updated_at: String,
}

/// The images one request generated.
#[derive(Debug)]
pub struct AiImageGenerationBatchRecord {
    pub batch_id: String,
    pub items: Vec<AiImageGenerationRecord>,
}


/// Where the image of a generation is read from.
#[derive(Debug)]
pub enum GenerationSource {
    /// The uploaded file with this id.
    Upload(i32),
    /// The file at this local path.
    Local(String),
}

/// Where a generation's image is read from: its uploaded file when it has
/// one, else its local output path, which it must then have ("generated
/// image output path is missing").
pub fn generation_source(output_upload_file_id: Option<i32>, local_output_path: Option<String>) -> (r:
    ApiResult<GenerationSource>)
    ensures
        match output_upload_file_id {
            Some(id) => r matches Ok(GenerationSource::Upload(i)) && i == id,
            None => match local_output_path {
                Some(p) => r matches Ok(GenerationSource::Local(q)) && q == p,
                None => r matches Err(e) && is_bad_request(e, "generated image output path is missing"@),
            },
        },
{
    match output_upload_file_id {
        Some(id) => Ok(GenerationSource::Upload(id)),
        None => match local_output_path {
            Some(p) => Ok(GenerationSource::Local(p)),
            None => Err(ApiError::bad_request("generated image output path is missing")),
        },
    }
}

/// The bucket a generated upload is read from: it must have one
/// ("generated upload file has no storage bucket").
pub fn generated_file_bucket(storage_bucket_id: Option<i32>) -> (r: ApiResult<i32>)
    ensures
        match storage_bucket_id {
            Some(b) => r == Ok::<i32, ApiError>(b),
            None => r matches Err(e) && is_bad_request(e, "generated upload file has no storage bucket"@),
        },
{
    match storage_bucket_id {
        Some(b) => Ok(b),
        None => Err(ApiError::bad_request("generated upload file has no storage bucket")),
    }
}

/// A generated upload that names a storage profile must be read through
/// that profile ("generated upload file storage mismatch").
pub fn check_generated_file_profile(file_profile_id: Option<i32>, profile_id: i32) -> (r: ApiResult<()>)
    ensures
        r is Ok <==> !(file_profile_id matches Some(p) && p != profile_id),
        r matches Err(e) ==> is_bad_request(e, "generated upload file storage mismatch"@),
{
    match file_profile_id {
        Some(p) => if p != profile_id {
            Err(ApiError::bad_request("generated upload file storage mismatch"))
        } else {
            Ok(())
        },
        None => Ok(()),
    }
}


/// Where a generation run stands.
#[derive(Clone, Copy, Debug, PartialEq, Eq, Structural)]
pub enum GenerationStage {
    /// The request to the provider is out.
    Requesting,
    /// Image `index` of `total` is being kept: saved, then recorded.
    Keeping { index: usize, total: usize, saved: bool },
    /// The run is over.
    Done,
}

/// What came of the step last asked for.
#[derive(Debug)]
pub enum GenerationEvent {
    /// The provider answered with this many images, or failed.
    Replied(Result<usize, ApiError>),
    /// The image being kept was saved, or could not be.
    Saved(Result<(), ApiError>),
    /// The record of the image just saved was stored, or could not be.
    Recorded(Result<(), ApiError>),
}

/// What the caller does next.
#[derive(Debug)]
pub enum GenerationAction {
    /// Save image `image` (counted from 0) as output `output_index`.
    SaveImage { image: usize, output_index: i32 },
    /// Store the record of the image just saved.
    RecordImage,
    /// Record the run as failed, then answer with the error.
    RecordFailure(ApiError),
    /// Answer with the error as it is.
    Fail(ApiError),
    /// Log the run and answer with the records stored.
    Finish,
}

/// Whether `event` answers the step that `stage` waits for (see
/// `event_fits`), for a caller to test before it takes the next step.
pub fn event_answers(stage: GenerationStage, event: &GenerationEvent) -> (b: bool)
    ensures
        b == event_fits(stage, *event),
{
    match stage {
        GenerationStage::Requesting => matches!(event, GenerationEvent::Replied(_)),
        GenerationStage::Keeping { index, total, saved } => index < total && if saved {
            matches!(event, GenerationEvent::Recorded(_))
        } else {
            matches!(event, GenerationEvent::Saved(_))
        },
        GenerationStage::Done => false,
    }
}

/// The output index of image `image` (counted from 0): one more, as an
/// `i32`, saturating.
pub open spec fn output_index_of(image: usize) -> i32 {
    if image + 1 <= i32::MAX {
        (image + 1) as i32
    } else {
        i32::MAX
    }
}

/// Holds when `event` answers the step that `stage` waits for.
pub open spec fn event_fits(stage: GenerationStage, event: GenerationEvent) -> bool {
    match stage {
        GenerationStage::Requesting => event is Replied,
        GenerationStage::Keeping { index, total, saved } => index < total && if saved {
            event is Recorded
        } else {
            event is Saved
        },
        GenerationStage::Done => false,
    }
}

fn output_index(image: usize) -> (r: i32)
    ensures
        r == output_index_of(image),
{
    if image < 2147483647usize {
        (image + 1) as i32
    } else {
        i32::MAX
    }
}

/// The next step of a generation run, once the provider was asked: a
/// failed request is recorded as a failed generation; each image is saved
/// and then recorded, in order, as outputs 1, 2, ...; a failed save is
/// recorded as a failed generation, while a failed record ends the run with
/// its error alone; after the last image the run is logged and answered.
pub fn generation_step(stage: GenerationStage, event: GenerationEvent) -> (r: (
    GenerationStage,
    GenerationAction,
))
    requires
        event_fits(stage, event),
    ensures
        match stage {
            GenerationStage::Requesting => match event {
                GenerationEvent::Replied(Err(e)) => r.0 == GenerationStage::Done && (r.1 matches GenerationAction::RecordFailure(f) && f == e),
                GenerationEvent::Replied(Ok(n)) => if n == 0 {
                    r.0 == GenerationStage::Done && r.1 is Finish
                } else {
                    r.0 == (GenerationStage::Keeping { index: 0, total: n, saved: false }) && (
                    r.1 matches GenerationAction::SaveImage { image, output_index } && image == 0
                        && output_index == output_index_of(0))
                },
                _ => false,
            },
            GenerationStage::Keeping { index, total, saved } => match event {
                GenerationEvent::Saved(Err(e)) => r.0 == GenerationStage::Done && (r.1 matches GenerationAction::RecordFailure(f) && f == e),
                GenerationEvent::Saved(Ok(())) => r.0 == (GenerationStage::Keeping { index, total, saved: true }) && r.1 is RecordImage,
                GenerationEvent::Recorded(Err(e)) => r.0 == GenerationStage::Done && (r.1 matches GenerationAction::Fail(f) && f == e),
                GenerationEvent::Recorded(Ok(())) => if index + 1 < total {
                    r.0 == (GenerationStage::Keeping { index: (index + 1) as usize, total, saved: false })
                        && (r.1 matches GenerationAction::SaveImage { image, output_index } && image
                        == index + 1 && output_index == output_index_of((index + 1) as usize))
                } else {
                    r.0 == GenerationStage::Done && r.1 is Finish
                },
                _ => false,
            },
            GenerationStage::Done => false,
        },
{
    match event {
        GenerationEvent::Replied(Err(e)) => (GenerationStage::Done, GenerationAction::RecordFailure(e)),
        GenerationEvent::Replied(Ok(n)) => {
            if n == 0 {
                (GenerationStage::Done, GenerationAction::Finish)
            } else {
                (
                    GenerationStage::Keeping { index: 0, total: n, saved: false },
                    GenerationAction::SaveImage { image: 0, output_index: output_index(0) },
                )
            }
        },
        GenerationEvent::Saved(Err(e)) => (GenerationStage::Done, GenerationAction::RecordFailure(e)),
        GenerationEvent::Saved(Ok(())) => match stage {
            GenerationStage::Keeping { index, total, saved: _ } => (
                GenerationStage::Keeping { index, total, saved: true },
                GenerationAction::RecordImage,
            ),
            _ => (GenerationStage::Done, GenerationAction::Finish),
        },
        GenerationEvent::Recorded(Err(e)) => (GenerationStage::Done, GenerationAction::Fail(e)),
        GenerationEvent::Recorded(Ok(())) => match stage {
            GenerationStage::Keeping { index, total, saved: _ } => {
                if index + 1 < total {
                    (
                        GenerationStage::Keeping { index: index + 1, total, saved: false },
                        GenerationAction::SaveImage {
                            image: index + 1,
                            output_index: output_index(index + 1),
                        },
                    )
                } else {
                    (GenerationStage::Done, GenerationAction::Finish)
                }
            },
            _ => (GenerationStage::Done, GenerationAction::Finish),
        },
    }
}

} // verus!
