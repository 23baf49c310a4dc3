use vstd::prelude::*;

use crate::error::{is_bad_request, is_error, ApiError, ApiResult, ErrorKind};
use crate::scope::{ensure_tenant_allowed, tenant_allowed, EffectiveDataScope};
use crate::text::{is_blank, is_blank_seq, opt_view, str_eq, trim_optional, trim_optional_spec};

verus! {

/// What the API shows in place of a stored secret access key.
pub const SECRET_MASK: &'static str = "******";

#[derive(Debug)]
pub struct StorageProfileRecord {
    pub id: i32,
    pub tenant_id: i32,
    pub name: String,
    pub code: String,
    pub provider: String,
    pub enabled: bool,
    pub is_default: bool,
    pub endpoint: Option<String>,
    pub region: Option<String>,
    pub access_key_id: Option<String>,
    pub secret_access_key: Option<String>,
    pub public_base_url: Option<String>,
    pub path_style: bool,
    pub description: Option<String>,
    pub created_at: String,
    pub updated_at: String,
}

#[derive(Debug)]
pub struct StorageBucketRecord {
    pub id: i32,
    pub storage_profile_id: i32,
    pub tenant_id: i32,
    pub name: String,
    pub bucket: String,
    pub base_prefix: Option<String>,
    pub local_root: Option<String>,
    pub public_prefix: Option<String>,
    pub enabled: bool,
    pub is_default: bool,
    pub created_at: String,
    pub updated_at: String,
}

#[derive(Debug)]
pub struct SaveStorageProfileParams {
    pub tenant_id: Option<i32>,
    pub name: String,
    pub code: String,
    pub provider: String,
    pub enabled: Option<bool>,
    pub is_default: Option<bool>,
    pub endpoint: Option<String>,
    pub region: Option<String>,
    pub access_key_id: Option<String>,
    pub secret_access_key: Option<String>,
    pub public_base_url: Option<String>,
    pub path_style: Option<bool>,
    pub description: Option<String>,
}

#[derive(Debug)]
pub struct SaveStorageBucketParams {
    pub tenant_id: Option<i32>,
    pub name: String,
    pub bucket: String,
    pub base_prefix: Option<String>,
    pub local_root: Option<String>,
    pub public_prefix: Option<String>,
    pub enabled: Option<bool>,
    pub is_default: Option<bool>,
}

#[derive(Debug)]
pub struct StorageTestRecord {
    pub ok: bool,
    pub message: String,
}

/// Holds when an optional text is absent or blank.
pub open spec fn missing(value: Option<String>) -> bool {
    match value {
        Some(v) => is_blank_seq(v@),
        None => true,
    }
}

fn is_missing(value: &Option<String>) -> (b: bool)
    ensures
        b == missing(*value),
{
    match value {
        Some(v) => is_blank(v.as_str()),
        None => true,
    }
}

/// Why a storage profile cannot be saved, checked in this order, if it
/// cannot. `provider_problem` is what the storage service says of the
/// provider; `tenant_found` whether the tenant exists; `duplicate_id` the
/// profile of the tenant that already has the code, if any; `profile_id` the
/// profile being updated.
pub open spec fn profile_problem(
    p: SaveStorageProfileParams,
    provider_problem: Option<Seq<char>>,
    tenant_found: bool,
    duplicate_id: Option<i32>,
    profile_id: Option<i32>,
) -> Option<Seq<char>> {
    if is_blank_seq(p.name@) || is_blank_seq(p.code@) {
        Some("storage profile name and code are required"@)
    } else if provider_problem is Some {
        provider_problem
    } else if !tenant_found {
        Some("tenant not found"@)
    } else if duplicate_id is Some && duplicate_id != profile_id {
        Some("storage profile code already exists"@)
    } else if p.provider@ == "s3_compatible"@ && missing(p.endpoint) {
        Some("storage endpoint is required"@)
    } else if p.provider@ == "s3_compatible"@ && missing(p.access_key_id) {
        Some("access key id is required"@)
    } else if p.provider@ == "s3_compatible"@ && missing(p.secret_access_key) {
        Some("secret access key is required"@)
    } else {
        None
    }
}

/// Refuses a storage profile as `profile_problem` says.
pub fn validate_profile(
    params: &SaveStorageProfileParams,
    provider_problem: Option<&str>,
    tenant_found: bool,
    duplicate_id: Option<i32>,
    profile_id: Option<i32>,
) -> (r: ApiResult<()>)
    ensures
        ({
            let problem = profile_problem(
                *params,
                match provider_problem {
                    Some(m) => Some(m@),
                    None => None,
                },
                tenant_found,
                duplicate_id,
                profile_id,
            );
            &&& r is Ok <==> problem is None
            &&& r matches Err(e) ==> problem matches Some(m) && is_bad_request(e, m)
        }),
{
    if is_blank(params.name.as_str()) || is_blank(params.code.as_str()) {
        return Err(ApiError::bad_request("storage profile name and code are required"));
    }
    match provider_problem {
        Some(m) => return Err(ApiError::bad_request(m)),
        None => {},
    }
    if !tenant_found {
        return Err(ApiError::bad_request("tenant not found"));
    }
    match duplicate_id {
        Some(d) => if Some(d) != profile_id {
            return Err(ApiError::bad_request("storage profile code already exists"));
        },
        None => {},
    }
    if str_eq(params.provider.as_str(), "s3_compatible") {
        if is_missing(&params.endpoint) {
            return Err(ApiError::bad_request("storage endpoint is required"));
        }
        if is_missing(&params.access_key_id) {
            return Err(ApiError::bad_request("access key id is required"));
        }
        if is_missing(&params.secret_access_key) {
            return Err(ApiError::bad_request("secret access key is required"));
        }
    }
    Ok(())
}

/// Why a bucket cannot be saved, checked in this order, if it cannot.
pub open spec fn bucket_problem(
    p: SaveStorageBucketParams,
    provider: Seq<char>,
    duplicate_id: Option<i32>,
    bucket_id: Option<i32>,
    tenant_id: i32,
) -> Option<Seq<char>> {
    if is_blank_seq(p.name@) || is_blank_seq(p.bucket@) {
        Some("storage bucket name and bucket are required"@)
    } else if provider == "local"@ && missing(p.local_root) {
        Some("local root is required"@)
    } else if duplicate_id is Some && duplicate_id != bucket_id {
        Some("storage bucket already exists"@)
    } else if tenant_id <= 0 {
        Some("tenant_id is required"@)
    } else {
        None
    }
}

/// Refuses a storage bucket as `bucket_problem` says.
pub fn validate_bucket(
    params: &SaveStorageBucketParams,
    provider: &str,
    duplicate_id: Option<i32>,
    bucket_id: Option<i32>,
    tenant_id: i32,
) -> (r: ApiResult<()>)
    ensures
        r is Ok <==> bucket_problem(*params, provider@, duplicate_id, bucket_id, tenant_id) is None,
        r matches Err(e) ==> bucket_problem(*params, provider@, duplicate_id, bucket_id, tenant_id) matches Some(
            m,
        ) && is_bad_request(e, m),
{
    if is_blank(params.name.as_str()) || is_blank(params.bucket.as_str()) {
        return Err(ApiError::bad_request("storage bucket name and bucket are required"));
    }
    if str_eq(provider, "local") && is_missing(&params.local_root) {
        return Err(ApiError::bad_request("local root is required"));
    }
    match duplicate_id {
        Some(d) => if Some(d) != bucket_id {
            return Err(ApiError::bad_request("storage bucket already exists"));
        },
        None => {},
    }
    if tenant_id <= 0 {
        return Err(ApiError::bad_request("tenant_id is required"));
    }
    Ok(())
}

/// A storage profile as saved.
#[derive(Debug)]
pub struct ProfileFields {
    pub name: String,
    pub code: String,
    pub provider: String,
    pub enabled: bool,
    pub is_default: bool,
    pub endpoint: Option<String>,
    pub region: Option<String>,
    pub access_key_id: Option<String>,
    pub secret_access_key: Option<String>,
    pub public_base_url: Option<String>,
    pub path_style: bool,
    pub description: Option<String>,
}

/// The secret access key a profile keeps: on an update (`existing` is the
/// stored key) the stored one when the mask is sent back; otherwise the sent
/// key, trimmed, blank dropped.
pub open spec fn kept_secret(sent: Option<Seq<char>>, existing: Option<Option<Seq<char>>>) -> Option<
    Seq<char>,
> {
    match existing {
        Some(stored) => if sent == Some(SECRET_MASK@) {
            stored
        } else {
            trim_optional_spec(sent)
        },
        None => trim_optional_spec(sent),
    }
}

/// The secret access key as the API shows it: the mask when one is stored.
pub open spec fn shown_key(stored: Option<Seq<char>>) -> Option<Seq<char>> {
    match stored {
        Some(_) => Some(SECRET_MASK@),
        None => None,
    }
}

/// What a checked profile request writes. Optional texts are trimmed and
/// blank ones dropped; on an update (`existing_secret` is the stored key) a
/// secret sent back as the mask keeps the stored one.
pub fn profile_fields(params: SaveStorageProfileParams, existing_secret: Option<Option<String>>) -> (f:
    ProfileFields)
    ensures
        f.name == params.name && f.code == params.code && f.provider == params.provider,
        f.enabled == match params.enabled {
            Some(b) => b,
            None => true,
        },
        f.is_default == match params.is_default {
            Some(b) => b,
            None => false,
        },
        opt_view(f.endpoint) == trim_optional_spec(opt_view(params.endpoint)),
        opt_view(f.region) == trim_optional_spec(opt_view(params.region)),
        opt_view(f.access_key_id) == trim_optional_spec(opt_view(params.access_key_id)),
        match existing_secret {
            Some(stored) => if opt_view(params.secret_access_key) == Some(SECRET_MASK@) {
                f.secret_access_key == stored
            } else {
                opt_view(f.secret_access_key) == trim_optional_spec(
                    opt_view(params.secret_access_key),
                )
            },
            None => opt_view(f.secret_access_key) == trim_optional_spec(
                opt_view(params.secret_access_key),
            ),
        },
        opt_view(f.public_base_url) == trim_optional_spec(opt_view(params.public_base_url)),
        f.path_style == match params.path_style {
            Some(b) => b,
            None => false,
        },
        f.description == params.description,
        opt_view(f.secret_access_key) == kept_secret(
            opt_view(params.secret_access_key),
            match existing_secret {
                Some(s) => Some(opt_view(s)),
                None => None,
            },
        ),
{
    let sent_mask = match &params.secret_access_key {
        Some(s) => str_eq(s.as_str(), SECRET_MASK),
        None => false,
    };
    let secret_access_key = match existing_secret {
        Some(stored) => if sent_mask {
            stored
        } else {
            trim_optional(params.secret_access_key)
        },
        None => trim_optional(params.secret_access_key),
    };
    ProfileFields {
        name: params.name,
        code: params.code,
        provider: params.provider,
        enabled: match params.enabled {
            Some(b) => b,
            None => true,
        },
        is_default: match params.is_default {
            Some(b) => b,
            None => false,
        },
        endpoint: trim_optional(params.endpoint),
        region: trim_optional(params.region),
        access_key_id: trim_optional(params.access_key_id),
        secret_access_key,
        public_base_url: trim_optional(params.public_base_url),
        path_style: match params.path_style {
            Some(b) => b,
            None => false,
        },
        description: params.description,
    }
}

/// The secret access key as the API shows it (see `shown_key`).
pub fn masked_secret(secret: &Option<String>) -> (r: Option<String>)
    ensures
        opt_view(r) == shown_key(opt_view(*secret)),
{
    match secret {
        Some(_) => Some(String::from_str(SECRET_MASK)),
        None => None,
    }
}

/// Profiles and buckets stay in their tenant: an update that names another
/// tenant is refused with `message` (forbidden).
pub fn check_same_tenant(current_tenant: i32, tenant_id: i32, message: &str) -> (r: ApiResult<()>)
    ensures
        r is Ok <==> current_tenant == tenant_id,
        r matches Err(e) ==> is_error(e, ErrorKind::Forbidden, message@),
{
    if current_tenant != tenant_id {
        Err(ApiError::forbidden(message))
    } else {
        Ok(())
    }
}

/// A profile can be deleted only without buckets and files.
pub fn check_profile_delete(bucket_count: u64, file_count: u64) -> (r: ApiResult<()>)
    ensures
        r is Ok <==> (bucket_count == 0 && file_count == 0),
        r matches Err(e) ==> is_bad_request(e, "storage profile has buckets or files"@),
{
    if bucket_count > 0 || file_count > 0 {
        Err(ApiError::bad_request("storage profile has buckets or files"))
    } else {
        Ok(())
    }
}

/// A bucket can be deleted only without files.
pub fn check_bucket_delete(file_count: u64) -> (r: ApiResult<()>)
    ensures
        r is Ok <==> file_count == 0,
        r matches Err(e) ==> is_bad_request(e, "storage bucket has files"@),
{
    if file_count > 0 {
        Err(ApiError::bad_request("storage bucket has files"))
    } else {
        Ok(())
    }
}

/// The tenant whose default bucket a user writes to: their own, which must
/// be set ("tenant_id is required") and within their scope.
pub fn default_bucket_tenant(actor_tenant_id: Option<i32>, scope: EffectiveDataScope) -> (r: ApiResult<i32>)
    ensures
        match actor_tenant_id {
            None => r matches Err(e) && is_bad_request(e, "tenant_id is required"@),
            Some(t) => if tenant_allowed(scope, Some(t)) {
                r == Ok::<i32, ApiError>(t)
            } else {
                r matches Err(e) && is_error(e, ErrorKind::Forbidden, "data scope denied"@)
            },
        },
{
    let t = match actor_tenant_id {
        None => return Err(ApiError::bad_request("tenant_id is required")),
        Some(t) => t,
    };
    match ensure_tenant_allowed(scope, Some(t)) {
        Ok(()) => Ok(t),
        Err(e) => Err(e),
    }
}

/// A bucket chosen by id must be enabled.
pub fn check_bucket_enabled(enabled: bool) -> (r: ApiResult<()>)
    ensures
        r is Ok <==> enabled,
        r matches Err(e) ==> is_bad_request(e, "storage bucket is disabled"@),
{
    if enabled {
        Ok(())
    } else {
        Err(ApiError::bad_request("storage bucket is disabled"))
    }
}

/// The profile a bucket belongs to must be enabled.
pub fn check_profile_enabled(enabled: bool) -> (r: ApiResult<()>)
    ensures
        r is Ok <==> enabled,
        r matches Err(e) ==> is_bad_request(e, "storage profile is disabled"@),
{
    if enabled {
        Ok(())
    } else {
        Err(ApiError::bad_request("storage profile is disabled"))
    }
}


/// Law: a profile update that sends back the secret access key as the API
/// shows it keeps the stored key.
pub proof fn law_shown_key_keeps_stored(stored: Option<Seq<char>>)
    ensures
        kept_secret(shown_key(stored), Some(stored)) == stored,
{
}

} // verus!
