use vstd::prelude::*;

use crate::error::{is_bad_request, is_error, ApiError, ApiResult, ErrorKind};
use crate::scope::EffectiveDataScope;
use crate::text::{is_blank, is_blank_seq, str_eq};

verus! {

#[derive(Debug)]
pub struct TenantRecord {
    pub id: i32,
    pub name: String,
    pub code: String,
    pub description: Option<String>,
    pub enabled: bool,
    pub is_system: bool,
    pub created_at: String,
    pub updated_at: String,
}

#[derive(Debug)]
pub struct SaveTenantParams {
    pub name: String,
    pub code: String,
    pub description: Option<String>,
    pub enabled: Option<bool>,
}

/// Tenants are managed only with a global scope ("data scope denied").
pub fn require_all_scope(scope: EffectiveDataScope) -> (r: ApiResult<()>)
    ensures
        r is Ok <==> scope == EffectiveDataScope::All,
        r matches Err(e) ==> is_error(e, ErrorKind::Forbidden, "data scope denied"@),
{
    match scope {
        EffectiveDataScope::All => Ok(()),
        _ => Err(ApiError::forbidden("data scope denied")),
    }
}

/// A tenant needs a name and a code.
pub fn validate_tenant(params: &SaveTenantParams) -> (r: ApiResult<()>)
    ensures
        r is Ok <==> !(is_blank_seq(params.name@) || is_blank_seq(params.code@)),
        r matches Err(e) ==> is_bad_request(e, "tenant name and code are required"@),
{
    if is_blank(params.name.as_str()) || is_blank(params.code.as_str()) {
        return Err(ApiError::bad_request("tenant name and code are required"));
    }
    Ok(())
}

/// A system tenant keeps its code.
pub fn check_tenant_update(is_system: bool, current_code: &str, new_code: &str) -> (r: ApiResult<()>)
    ensures
        r is Ok <==> !(is_system && current_code@ != new_code@),
        r matches Err(e) ==> is_bad_request(e, "system tenant code cannot be changed"@),
{
    if is_system && !str_eq(current_code, new_code) {
        return Err(ApiError::bad_request("system tenant code cannot be changed"));
    }
    Ok(())
}

/// A tenant can be deleted unless it is the system one or still has users
/// or roles.
pub fn check_tenant_delete(is_system: bool, user_count: u64, role_count: u64) -> (r: ApiResult<()>)
    ensures
        is_system ==> (r matches Err(e) && is_bad_request(e, "system tenant cannot be deleted"@)),
        !is_system && (user_count > 0 || role_count > 0) ==> (r matches Err(e) && is_bad_request(
            e,
            "tenant has users or roles"@,
        )),
        !is_system && user_count == 0 && role_count == 0 ==> r is Ok,
{
    if is_system {
        return Err(ApiError::bad_request("system tenant cannot be deleted"));
    }
    if user_count > 0 || role_count > 0 {
        return Err(ApiError::bad_request("tenant has users or roles"));
    }
    Ok(())
}

} // verus!
