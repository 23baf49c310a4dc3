use vstd::prelude::*;

use crate::error::{is_bad_request, is_error, ApiError, ApiResult, ErrorKind};

verus! {

/// What data a signed-in user may see and manage, as their roles resolve it.
#[derive(Clone, Copy, Debug, PartialEq, Eq, Structural)]
pub enum EffectiveDataScope {
    All,
    Tenant { tenant_id: i32 },
    Department { tenant_id: i32 },
    SelfOnly { tenant_id: Option<i32>, user_id: i32 },
    NoAccess,
}

/// The tenant a tenant- or department-wide scope is bound to.
pub open spec fn scope_tenant(scope: EffectiveDataScope) -> Option<i32> {
    match scope {
        EffectiveDataScope::Tenant { tenant_id } => Some(tenant_id),
        EffectiveDataScope::Department { tenant_id } => Some(tenant_id),
        _ => None,
    }
}

/// The tenant a scope is bound to, if any.
pub fn tenant_of_scope(scope: EffectiveDataScope) -> (r: Option<i32>)
    ensures
        r == scope_tenant(scope),
{
    match scope {
        EffectiveDataScope::Tenant { tenant_id } => Some(tenant_id),
        EffectiveDataScope::Department { tenant_id } => Some(tenant_id),
        _ => None,
    }
}

/// Which rows of a listing a scope lets through.
#[derive(Clone, Copy, Debug, PartialEq, Eq, Structural)]
pub enum ScopeFilter {
    /// Every row.
    Everything,
    /// The rows of one tenant.
    TenantIs(i32),
    /// The row with one id.
    IdIs(i32),
    /// No row.
    Nothing,
}

/// The rows of tenant-owned data (departments, storage profiles) a scope
/// lists: everything, its tenant's, the own tenant's for a self-only scope
/// with one, and nothing otherwise.
pub fn tenant_rows_filter(scope: EffectiveDataScope) -> (f: ScopeFilter)
    ensures
        f == match scope {
            EffectiveDataScope::All => ScopeFilter::Everything,
            EffectiveDataScope::Tenant { tenant_id } => ScopeFilter::TenantIs(tenant_id),
            EffectiveDataScope::Department { tenant_id } => ScopeFilter::TenantIs(tenant_id),
            EffectiveDataScope::SelfOnly { tenant_id, user_id } => match tenant_id {
                Some(t) => ScopeFilter::TenantIs(t),
                None => ScopeFilter::Nothing,
            },
            EffectiveDataScope::NoAccess => ScopeFilter::Nothing,
        },
{
    match scope {
        EffectiveDataScope::All => ScopeFilter::Everything,
        EffectiveDataScope::Tenant { tenant_id } => ScopeFilter::TenantIs(tenant_id),
        EffectiveDataScope::Department { tenant_id } => ScopeFilter::TenantIs(tenant_id),
        EffectiveDataScope::SelfOnly { tenant_id, user_id: _ } => match tenant_id {
            Some(t) => ScopeFilter::TenantIs(t),
            None => ScopeFilter::Nothing,
        },
        EffectiveDataScope::NoAccess => ScopeFilter::Nothing,
    }
}

/// The roles a scope lists: everything, its tenant's, or nothing.
pub fn role_rows_filter(scope: EffectiveDataScope) -> (f: ScopeFilter)
    ensures
        f == match scope_tenant(scope) {
            Some(t) => ScopeFilter::TenantIs(t),
            None => if scope == EffectiveDataScope::All {
                ScopeFilter::Everything
            } else {
                ScopeFilter::Nothing
            },
        },
{
    match scope {
        EffectiveDataScope::All => ScopeFilter::Everything,
        EffectiveDataScope::Tenant { tenant_id } => ScopeFilter::TenantIs(tenant_id),
        EffectiveDataScope::Department { tenant_id } => ScopeFilter::TenantIs(tenant_id),
        _ => ScopeFilter::Nothing,
    }
}

/// The users a scope lists: everything, its tenant's, oneself for a
/// self-only scope, or nothing.
pub fn user_rows_filter(scope: EffectiveDataScope) -> (f: ScopeFilter)
    ensures
        f == match scope {
            EffectiveDataScope::All => ScopeFilter::Everything,
            EffectiveDataScope::Tenant { tenant_id } => ScopeFilter::TenantIs(tenant_id),
            EffectiveDataScope::Department { tenant_id } => ScopeFilter::TenantIs(tenant_id),
            EffectiveDataScope::SelfOnly { tenant_id, user_id } => ScopeFilter::IdIs(user_id),
            EffectiveDataScope::NoAccess => ScopeFilter::Nothing,
        },
{
    match scope {
        EffectiveDataScope::All => ScopeFilter::Everything,
        EffectiveDataScope::Tenant { tenant_id } => ScopeFilter::TenantIs(tenant_id),
        EffectiveDataScope::Department { tenant_id } => ScopeFilter::TenantIs(tenant_id),
        EffectiveDataScope::SelfOnly { tenant_id: _, user_id } => ScopeFilter::IdIs(user_id),
        EffectiveDataScope::NoAccess => ScopeFilter::Nothing,
    }
}

/// Holds when a scope lets its holder at data of tenant `tenant_id`: a
/// global scope always, a tenant or department scope for its own tenant.
pub open spec fn tenant_allowed(scope: EffectiveDataScope, tenant_id: Option<i32>) -> bool {
    scope == EffectiveDataScope::All || (scope_tenant(scope) is Some && tenant_id == scope_tenant(scope))
}

/// Refuses ("data scope denied") data of a tenant the scope does not reach.
pub fn ensure_tenant_allowed(scope: EffectiveDataScope, tenant_id: Option<i32>) -> (r: ApiResult<()>)
    ensures
        r is Ok <==> tenant_allowed(scope, tenant_id),
        r matches Err(e) ==> is_error(e, ErrorKind::Forbidden, "data scope denied"@),
{
    match scope {
        EffectiveDataScope::All => Ok(()),
        EffectiveDataScope::Tenant { tenant_id: t } | EffectiveDataScope::Department { tenant_id: t } => {
            match tenant_id {
                Some(u) => if u == t {
                    Ok(())
                } else {
                    Err(ApiError::forbidden("data scope denied"))
                },
                None => Err(ApiError::forbidden("data scope denied")),
            }
        },
        _ => Err(ApiError::forbidden("data scope denied")),
    }
}

/// Refuses ("data scope denied") a user the scope does not reach: a self-only
/// scope reaches its holder too.
pub fn ensure_user_allowed(scope: EffectiveDataScope, user_id: i32, user_tenant_id: Option<i32>) -> (r:
    ApiResult<()>)
    ensures
        r is Ok <==> (tenant_allowed(scope, user_tenant_id) || match scope {
            EffectiveDataScope::SelfOnly { tenant_id, user_id: own } => own == user_id,
            _ => false,
        }),
        r matches Err(e) ==> is_error(e, ErrorKind::Forbidden, "data scope denied"@),
{
    match scope {
        EffectiveDataScope::SelfOnly { tenant_id: _, user_id: own } => if own == user_id {
            Ok(())
        } else {
            Err(ApiError::forbidden("data scope denied"))
        },
        _ => ensure_tenant_allowed(scope, user_tenant_id),
    }
}

/// The tenant new tenant-owned data goes to: for a global scope the requested
/// one or else the actor's own ("tenant_id is required" when neither is
/// known); for a tenant or department scope its tenant, which a request may
/// not contradict (`mismatch_message`, forbidden); no other scope manages
/// such data ("data scope denied").
pub fn resolve_owned_tenant(
    scope: EffectiveDataScope,
    requested_tenant_id: Option<i32>,
    actor_tenant_id: Option<i32>,
    mismatch_message: &str,
) -> (r: ApiResult<i32>)
    ensures
        match scope_tenant(scope) {
            Some(t) => match requested_tenant_id {
                Some(q) => if q != t {
                    r matches Err(e) && is_error(e, ErrorKind::Forbidden, mismatch_message@)
                } else {
                    r == Ok::<i32, ApiError>(t)
                },
                None => r == Ok::<i32, ApiError>(t),
            },
            None => if scope == EffectiveDataScope::All {
                match requested_tenant_id {
                    Some(q) => r == Ok::<i32, ApiError>(q),
                    None => match actor_tenant_id {
                        Some(a) => r == Ok::<i32, ApiError>(a),
                        None => r matches Err(e) && is_bad_request(e, "tenant_id is required"@),
                    },
                }
            } else {
                r matches Err(e) && is_error(e, ErrorKind::Forbidden, "data scope denied"@)
            },
        },
{
    match scope {
        EffectiveDataScope::All => match requested_tenant_id {
            Some(q) => Ok(q),
            None => match actor_tenant_id {
                Some(a) => Ok(a),
                None => Err(ApiError::bad_request("tenant_id is required")),
            },
        },
        EffectiveDataScope::Tenant { tenant_id: t } | EffectiveDataScope::Department { tenant_id: t } => {
            match requested_tenant_id {
                Some(q) => if q != t {
                    Err(ApiError::forbidden(mismatch_message))
                } else {
                    Ok(t)
                },
                None => Ok(t),
            }
        },
        _ => Err(ApiError::forbidden("data scope denied")),
    }
}

/// The tenant a user is created in or moved to: for a global scope the
/// requested one (possibly none); for a tenant or department scope its
/// tenant, which a request may not contradict ("cannot assign user to
/// another tenant"); no other scope manages users.
pub fn resolve_user_tenant(scope: EffectiveDataScope, requested_tenant_id: Option<i32>) -> (r: ApiResult<
    Option<i32>,
>)
    ensures
        match scope_tenant(scope) {
            Some(t) => if requested_tenant_id is Some && requested_tenant_id != Some(t) {
                r matches Err(e) && is_error(
                    e,
                    ErrorKind::Forbidden,
                    "cannot assign user to another tenant"@,
                )
            } else {
                r == Ok::<Option<i32>, ApiError>(Some(t))
            },
            None => if scope == EffectiveDataScope::All {
                r == Ok::<Option<i32>, ApiError>(requested_tenant_id)
            } else {
                r matches Err(e) && is_error(e, ErrorKind::Forbidden, "data scope denied"@)
            },
        },
{
    match scope {
        EffectiveDataScope::All => Ok(requested_tenant_id),
        EffectiveDataScope::Tenant { tenant_id: t } | EffectiveDataScope::Department { tenant_id: t } => {
            match requested_tenant_id {
                Some(q) => if q != t {
                    Err(ApiError::forbidden("cannot assign user to another tenant"))
                } else {
                    Ok(Some(t))
                },
                None => Ok(Some(t)),
            }
        },
        _ => Err(ApiError::forbidden("data scope denied")),
    }
}

/// The tenant a role is created in: for a global scope the requested one;
/// for a tenant scope (a department scope manages no roles) its tenant,
/// which a request may not contradict ("cannot assign role to another
/// tenant").
pub fn resolve_role_tenant(scope: EffectiveDataScope, requested_tenant_id: Option<i32>) -> (r: ApiResult<
    Option<i32>,
>)
    ensures
        match scope {
            EffectiveDataScope::All => r == Ok::<Option<i32>, ApiError>(requested_tenant_id),
            EffectiveDataScope::Tenant { tenant_id } => if requested_tenant_id is Some
                && requested_tenant_id != Some(tenant_id) {
                r matches Err(e) && is_error(
                    e,
                    ErrorKind::Forbidden,
                    "cannot assign role to another tenant"@,
                )
            } else {
                r == Ok::<Option<i32>, ApiError>(Some(tenant_id))
            },
            _ => r matches Err(e) && is_error(e, ErrorKind::Forbidden, "data scope denied"@),
        },
{
    match scope {
        EffectiveDataScope::All => Ok(requested_tenant_id),
        EffectiveDataScope::Tenant { tenant_id: t } => match requested_tenant_id {
            Some(q) => if q != t {
                Err(ApiError::forbidden("cannot assign role to another tenant"))
            } else {
                Ok(Some(t))
            },
            None => Ok(Some(t)),
        },
        _ => Err(ApiError::forbidden("data scope denied")),
    }
}

/// Law: a scope never reaches data of another tenant than its own: whatever
/// the filter or check, a tenant or department scope lets through only its
/// tenant's rows, and a scope of nothing lets nothing through.
pub proof fn law_scope_stays_in_tenant(scope: EffectiveDataScope, tenant_id: Option<i32>)
    ensures
        scope_tenant(scope) is Some && tenant_allowed(scope, tenant_id) ==> tenant_id == scope_tenant(
            scope,
        ),
        scope == EffectiveDataScope::NoAccess ==> !tenant_allowed(scope, tenant_id),
        (scope is SelfOnly) ==> !tenant_allowed(scope, tenant_id),
{
}

} // verus!
