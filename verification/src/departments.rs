use vstd::prelude::*;

use crate::error::{is_bad_request, is_error, ApiError, ApiResult, ErrorKind};
use crate::scope::{scope_tenant, EffectiveDataScope};
use crate::text::{is_blank, is_blank_seq, str_eq};

verus! {

#[derive(Debug)]
pub struct DepartmentRecord {
    pub id: i32,
    pub tenant_id: i32,
    pub parent_id: Option<i32>,
    pub name: String,
    pub code: String,
    pub description: Option<String>,
    pub sort_order: i32,
    pub enabled: bool,
    pub is_system: bool,
    pub created_at: String,
    pub updated_at: String,
}

#[derive(Debug)]
pub struct SaveDepartmentParams {
    pub tenant_id: Option<i32>,
    pub parent_id: Option<i32>,
    pub name: String,
    pub code: String,
    pub description: Option<String>,
    pub sort_order: Option<i32>,
    pub enabled: Option<bool>,
}

/// What the department rules read of a tenant.
#[derive(Clone, Copy, Debug, PartialEq, Eq, Structural)]
pub struct TenantFacts {
    pub enabled: bool,
    pub departments_enabled: bool,
}

/// The departments of a tenant can be managed only when the tenant exists
/// ("tenant not found") and has them turned on ("department management is
/// disabled", forbidden).
pub fn ensure_tenant_departments_enabled(tenant: Option<TenantFacts>) -> (r: ApiResult<()>)
    ensures
        match tenant {
            None => r matches Err(e) && is_bad_request(e, "tenant not found"@),
            Some(t) => if t.departments_enabled {
                r is Ok
            } else {
                r matches Err(e) && is_error(
                    e,
                    ErrorKind::Forbidden,
                    "department management is disabled"@,
                )
            },
        },
{
    match tenant {
        None => Err(ApiError::bad_request("tenant not found")),
        Some(t) => if t.departments_enabled {
            Ok(())
        } else {
            Err(ApiError::forbidden("department management is disabled"))
        },
    }
}

/// Whose departments a scope may manage: all for a global scope (`None`),
/// its tenant's for a tenant or department scope (whose tenant must then
/// have departments turned on); no other scope ("data scope denied").
pub fn department_scope_tenant(scope: EffectiveDataScope) -> (r: ApiResult<Option<i32>>)
    ensures
        match scope_tenant(scope) {
            Some(t) => r == Ok::<Option<i32>, ApiError>(Some(t)),
            None => if scope == EffectiveDataScope::All {
                r == Ok::<Option<i32>, ApiError>(None)
            } else {
                r matches Err(e) && is_error(e, ErrorKind::Forbidden, "data scope denied"@)
            },
        },
{
    match scope {
        EffectiveDataScope::All => Ok(None),
        EffectiveDataScope::Tenant { tenant_id } | EffectiveDataScope::Department { tenant_id } => Ok(
            Some(tenant_id),
        ),
        _ => Err(ApiError::forbidden("data scope denied")),
    }
}

/// Whether a department of tenant `department_tenant` is within a scope:
/// always for a global scope (`None`), for a tenant or department scope when
/// it is of that tenant (`Some(tenant)`, whose departments must then be
/// turned on); otherwise "data scope denied".
pub fn department_visibility(scope: EffectiveDataScope, department_tenant: i32) -> (r: ApiResult<
    Option<i32>,
>)
    ensures
        match scope_tenant(scope) {
            Some(t) => if t == department_tenant {
                r == Ok::<Option<i32>, ApiError>(Some(t))
            } else {
                r matches Err(e) && is_error(e, ErrorKind::Forbidden, "data scope denied"@)
            },
            None => if scope == EffectiveDataScope::All {
                r == Ok::<Option<i32>, ApiError>(None)
            } else {
                r matches Err(e) && is_error(e, ErrorKind::Forbidden, "data scope denied"@)
            },
        },
{
    match scope {
        EffectiveDataScope::All => Ok(None),
        EffectiveDataScope::Tenant { tenant_id } | EffectiveDataScope::Department { tenant_id } => {
            if tenant_id == department_tenant {
                Ok(Some(tenant_id))
            } else {
                Err(ApiError::forbidden("data scope denied"))
            }
        },
        _ => Err(ApiError::forbidden("data scope denied")),
    }
}

/// Why a department cannot be saved into tenant `tenant_id`, checked in
/// this order, if it cannot. `department_id` is the department being
/// updated (none when new); `tenant` is what was found of the tenant;
/// `parent_tenant` is the tenant of the parent department, when one is named
/// and found; `duplicate_id` is the department of that tenant that already
/// has the code, if any.
pub open spec fn department_problem(
    params: SaveDepartmentParams,
    tenant_id: i32,
    department_id: Option<i32>,
    tenant: Option<TenantFacts>,
    parent_tenant: Option<i32>,
    duplicate_id: Option<i32>,
) -> Option<Seq<char>> {
    if is_blank_seq(params.name@) || is_blank_seq(params.code@) {
        Some("department name and code are required"@)
    } else if tenant is None {
        Some("tenant not found"@)
    } else if !tenant->0.enabled {
        Some("tenant is disabled"@)
    } else if department_id is Some && params.parent_id == department_id {
        Some("department cannot be its own parent"@)
    } else if params.parent_id is Some && parent_tenant is None {
        Some("department not found"@)
    } else if params.parent_id is Some && parent_tenant != Some(tenant_id) {
        Some("parent department must belong to same tenant"@)
    } else if duplicate_id is Some && duplicate_id != department_id {
        Some("department code already exists"@)
    } else {
        None
    }
}

/// Refuses a department as `department_problem` says.
pub fn validate_department(
    params: &SaveDepartmentParams,
    tenant_id: i32,
    department_id: Option<i32>,
    tenant: Option<TenantFacts>,
    parent_tenant: Option<i32>,
    duplicate_id: Option<i32>,
) -> (r: ApiResult<()>)
    ensures
        r is Ok <==> department_problem(
            *params,
            tenant_id,
            department_id,
            tenant,
            parent_tenant,
            duplicate_id,
        ) is None,
        r matches Err(e) ==> department_problem(
            *params,
            tenant_id,
            department_id,
            tenant,
            parent_tenant,
            duplicate_id,
        ) matches Some(m) && is_bad_request(e, m),
{
    if is_blank(params.name.as_str()) || is_blank(params.code.as_str()) {
        return Err(ApiError::bad_request("department name and code are required"));
    }
    let facts = match tenant {
        None => return Err(ApiError::bad_request("tenant not found")),
        Some(t) => t,
    };
    if !facts.enabled {
        return Err(ApiError::bad_request("tenant is disabled"));
    }
    match department_id {
        Some(id) => if params.parent_id == Some(id) {
            return Err(ApiError::bad_request("department cannot be its own parent"));
        },
        None => {},
    }
    match params.parent_id {
        Some(_) => match parent_tenant {
            None => return Err(ApiError::bad_request("department not found")),
            Some(t) => if t != tenant_id {
                return Err(ApiError::bad_request("parent department must belong to same tenant"));
            },
        },
        None => {},
    }
    match duplicate_id {
        Some(d) => if Some(d) != department_id {
            return Err(ApiError::bad_request("department code already exists"));
        },
        None => {},
    }
    Ok(())
}

/// What an update may not change: a department stays in its tenant
/// ("cannot move department across tenants", forbidden), and a system
/// department keeps its code ("system department code cannot be changed").
pub fn check_department_update(
    current_tenant: i32,
    tenant_id: i32,
    is_system: bool,
    current_code: &str,
    new_code: &str,
) -> (r: ApiResult<()>)
    ensures
        current_tenant != tenant_id ==> (r matches Err(e) && is_error(
            e,
            ErrorKind::Forbidden,
            "cannot move department across tenants"@,
        )),
        current_tenant == tenant_id && is_system && current_code@ != new_code@ ==> (r matches Err(e)
            && is_bad_request(e, "system department code cannot be changed"@)),
        current_tenant == tenant_id && !(is_system && current_code@ != new_code@) ==> r is Ok,
{
    if current_tenant != tenant_id {
        return Err(ApiError::forbidden("cannot move department across tenants"));
    }
    if is_system && !str_eq(current_code, new_code) {
        return Err(ApiError::bad_request("system department code cannot be changed"));
    }
    Ok(())
}

/// A department can be deleted unless it is a system one ("system
/// department cannot be deleted") or still has child departments or users
/// ("department has children or users").
pub fn check_department_delete(is_system: bool, child_count: u64, user_count: u64) -> (r: ApiResult<()>)
    ensures
        is_system ==> (r matches Err(e) && is_bad_request(e, "system department cannot be deleted"@)),
        !is_system && (child_count > 0 || user_count > 0) ==> (r matches Err(e) && is_bad_request(
            e,
            "department has children or users"@,
        )),
        !is_system && child_count == 0 && user_count == 0 ==> r is Ok,
{
    if is_system {
        return Err(ApiError::bad_request("system department cannot be deleted"));
    }
    if child_count > 0 || user_count > 0 {
        return Err(ApiError::bad_request("department has children or users"));
    }
    Ok(())
}

/// A department as saved.
#[derive(Debug)]
pub struct DepartmentFields {
    pub parent_id: Option<i32>,
    pub name: String,
    pub code: String,
    pub description: Option<String>,
    pub sort_order: i32,
    pub enabled: bool,
}

/// What a checked department request writes: its texts as sent, sort order
/// 0 and enabled unless given.
pub fn department_fields(params: SaveDepartmentParams) -> (f: DepartmentFields)
    ensures
        f.parent_id == params.parent_id,
        f.name == params.name && f.code == params.code && f.description == params.description,
        f.sort_order == match params.sort_order {
            Some(s) => s,
            None => 0,
        },
        f.enabled == match params.enabled {
            Some(b) => b,
            None => true,
        },
{
    DepartmentFields {
        parent_id: params.parent_id,
        name: params.name,
        code: params.code,
        description: params.description,
        sort_order: match params.sort_order {
            Some(s) => s,
            None => 0,
        },
        enabled: match params.enabled {
            Some(b) => b,
            None => true,
        },
    }
}

} // verus!
