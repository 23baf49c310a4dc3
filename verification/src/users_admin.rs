use vstd::prelude::*;

use crate::error::{is_bad_request, is_error, ApiError, ApiResult, ErrorKind};
use crate::scope::{scope_tenant, EffectiveDataScope};
use crate::text::str_eq;

verus! {

#[derive(Debug)]
pub struct UserRecord {
    pub id: i32,
    pub pid: String,
    pub name: String,
    pub email: String,
    pub tenant_id: Option<i32>,
    pub current_department_id: Option<i32>,
    pub is_verified: bool,
    pub created_at: String,
    pub updated_at: String,
}

#[derive(Debug)]
pub struct CreateUserParams {
    pub name: String,
    pub email: String,
    pub password: String,
    pub tenant_id: Option<i32>,
}

#[derive(Debug)]
pub struct UpdateUserParams {
    pub name: String,
    pub email: String,
    pub tenant_id: Option<i32>,
}

#[derive(Debug)]
pub struct AssignedRoleRecord {
    pub id: i32,
    pub name: String,
    pub code: String,
}

#[derive(Debug)]
pub struct AssignedDepartmentRecord {
    pub id: i32,
    pub tenant_id: i32,
    pub name: String,
    pub code: String,
    pub is_primary: bool,
}

#[derive(Debug)]
pub struct SaveUserRolesParams {
    pub role_ids: Vec<i32>,
}

#[derive(Debug)]
pub struct SaveUserDepartmentsParams {
    pub department_ids: Vec<i32>,
    pub current_department_id: Option<i32>,
}

/// A user cannot delete themselves.
pub fn check_not_current_user(id: i32, actor_id: i32) -> (r: ApiResult<()>)
    ensures
        r is Ok <==> id != actor_id,
        r matches Err(e) ==> is_bad_request(e, "cannot delete current user"@),
{
    if id == actor_id {
        Err(ApiError::bad_request("cannot delete current user"))
    } else {
        Ok(())
    }
}

/// What the assignment rules read of a role.
#[derive(Debug)]
pub struct RoleFacts {
    pub tenant_id: Option<i32>,
    pub code: String,
}

/// Holds when some role of `roles` has code `code`.
pub open spec fn has_role_code(roles: Seq<RoleFacts>, code: Seq<char>) -> bool {
    exists|i: int| 0 <= i < roles.len() && (#[trigger] roles[i]).code@ == code
}

/// Holds when some role of `roles` is outside tenant `t` or is the super
/// administrator role.
pub open spec fn role_outside_tenant(roles: Seq<RoleFacts>, t: i32, super_admin_code: Seq<char>) -> bool {
    exists|i: int|
        0 <= i < roles.len() && ((#[trigger] roles[i]).tenant_id != Some(t) || roles[i].code@
            == super_admin_code)
}

/// Why roles cannot be assigned to a user of tenant `target_tenant_id`, if
/// they cannot. `roles` are the roles found for the `requested` distinct
/// ids.
pub open spec fn role_assignment_problem(
    scope: EffectiveDataScope,
    actor_is_super_admin: bool,
    target_tenant_id: Option<i32>,
    roles: Seq<RoleFacts>,
    requested: nat,
    super_admin_code: Seq<char>,
) -> Option<(ErrorKind, Seq<char>)> {
    if roles.len() != requested {
        Some((ErrorKind::BadRequest, "invalid role ids"@))
    } else if scope == EffectiveDataScope::All {
        if !actor_is_super_admin && has_role_code(roles, super_admin_code) {
            Some((ErrorKind::Forbidden, "cannot assign super admin role"@))
        } else {
            None
        }
    } else if scope_tenant(scope) is Some {
        let t = scope_tenant(scope)->0;
        if target_tenant_id != Some(t) {
            Some((ErrorKind::Forbidden, "cannot assign roles across tenants"@))
        } else if role_outside_tenant(roles, t, super_admin_code) {
            Some((ErrorKind::Forbidden, "cannot assign role outside current tenant"@))
        } else {
            None
        }
    } else {
        Some((ErrorKind::Forbidden, "data scope denied"@))
    }
}

fn any_role_code(roles: &Vec<RoleFacts>, code: &str) -> (b: bool)
    ensures
        b == has_role_code(roles@, code@),
{
    let mut i: usize = 0;
    while i < roles.len()
        invariant
            i <= roles@.len(),
            forall|k: int| 0 <= k < i ==> (#[trigger] roles@[k]).code@ != code@,
        decreases roles.len() - i,
    {
        if str_eq(roles[i].code.as_str(), code) {
            return true;
        }
        i = i + 1;
    }
    false
}

fn any_role_outside(roles: &Vec<RoleFacts>, t: i32, super_admin_code: &str) -> (b: bool)
    ensures
        b == role_outside_tenant(roles@, t, super_admin_code@),
{
    let mut i: usize = 0;
    while i < roles.len()
        invariant
            i <= roles@.len(),
            forall|k: int|
                0 <= k < i ==> !((#[trigger] roles@[k]).tenant_id != Some(t) || roles@[k].code@
                    == super_admin_code@),
        decreases roles.len() - i,
    {
        if roles[i].tenant_id != Some(t) || str_eq(roles[i].code.as_str(), super_admin_code) {
            return true;
        }
        i = i + 1;
    }
    false
}

/// Refuses an assignment of roles as `role_assignment_problem` says.
pub fn check_roles_assignable(
    scope: EffectiveDataScope,
    actor_is_super_admin: bool,
    target_tenant_id: Option<i32>,
    roles: &Vec<RoleFacts>,
    requested: usize,
    super_admin_code: &str,
) -> (r: ApiResult<()>)
    ensures
        match role_assignment_problem(
            scope,
            actor_is_super_admin,
            target_tenant_id,
            roles@,
            requested as nat,
            super_admin_code@,
        ) {
            None => r is Ok,
            Some((kind, m)) => r matches Err(e) && is_error(e, kind, m),
        },
{
    if roles.len() != requested {
        return Err(ApiError::bad_request("invalid role ids"));
    }
    match scope {
        EffectiveDataScope::All => {
            if !actor_is_super_admin && any_role_code(roles, super_admin_code) {
                return Err(ApiError::forbidden("cannot assign super admin role"));
            }
            Ok(())
        },
        EffectiveDataScope::Tenant { tenant_id: t } | EffectiveDataScope::Department { tenant_id: t } => {
            if target_tenant_id != Some(t) {
                return Err(ApiError::forbidden("cannot assign roles across tenants"));
            }
            if any_role_outside(roles, t, super_admin_code) {
                return Err(ApiError::forbidden("cannot assign role outside current tenant"));
            }
            Ok(())
        },
        _ => Err(ApiError::forbidden("data scope denied")),
    }
}

/// What the assignment rules read of a department.
#[derive(Clone, Copy, Debug, PartialEq, Eq, Structural)]
pub struct DepartmentFacts {
    pub tenant_id: i32,
    pub enabled: bool,
}

/// Why departments cannot be assigned to a user of tenant
/// `target_tenant_id`, if they cannot. `departments` are those found for the
/// distinct ids `department_ids`.
pub open spec fn department_assignment_problem(
    scope: EffectiveDataScope,
    target_tenant_id: Option<i32>,
    department_ids: Seq<i32>,
    current_department_id: Option<i32>,
    departments: Seq<DepartmentFacts>,
) -> Option<(ErrorKind, Seq<char>)> {
    if current_department_id is Some && !department_ids.contains(current_department_id->0) {
        Some((ErrorKind::BadRequest, "current department must be assigned to user"@))
    } else if departments.len() != department_ids.len() {
        Some((ErrorKind::BadRequest, "invalid department ids"@))
    } else if exists|i: int| 0 <= i < departments.len() && !(#[trigger] departments[i]).enabled {
        Some((ErrorKind::BadRequest, "department is disabled"@))
    } else if scope == EffectiveDataScope::All {
        if target_tenant_id is Some && exists|i: int|
            0 <= i < departments.len() && (#[trigger] departments[i]).tenant_id
                != target_tenant_id->0 {
            Some((ErrorKind::BadRequest, "department must belong to user's tenant"@))
        } else {
            None
        }
    } else if scope_tenant(scope) is Some {
        let t = scope_tenant(scope)->0;
        if target_tenant_id != Some(t) {
            Some((ErrorKind::Forbidden, "cannot assign departments across tenants"@))
        } else if exists|i: int| 0 <= i < departments.len() && (#[trigger] departments[i]).tenant_id != t {
            Some((ErrorKind::Forbidden, "cannot assign department outside current tenant"@))
        } else {
            None
        }
    } else {
        Some((ErrorKind::Forbidden, "data scope denied"@))
    }
}

fn contains_id(ids: &Vec<i32>, id: i32) -> (b: bool)
    ensures
        b == ids@.contains(id),
{
    let mut i: usize = 0;
    while i < ids.len()
        invariant
            i <= ids@.len(),
            forall|k: int| 0 <= k < i ==> ids@[k] != id,
        decreases ids.len() - i,
    {
        if ids[i] == id {
            assert(ids@[i as int] == id);
            return true;
        }
        i = i + 1;
    }
    false
}

fn any_disabled(departments: &Vec<DepartmentFacts>) -> (b: bool)
    ensures
        b == exists|i: int| 0 <= i < departments@.len() && !(#[trigger] departments@[i]).enabled,
{
    let mut i: usize = 0;
    while i < departments.len()
        invariant
            i <= departments@.len(),
            forall|k: int| 0 <= k < i ==> (#[trigger] departments@[k]).enabled,
        decreases departments.len() - i,
    {
        if !departments[i].enabled {
            return true;
        }
        i = i + 1;
    }
    false
}

fn any_other_tenant(departments: &Vec<DepartmentFacts>, t: i32) -> (b: bool)
    ensures
        b == exists|i: int| 0 <= i < departments@.len() && (#[trigger] departments@[i]).tenant_id != t,
{
    let mut i: usize = 0;
    while i < departments.len()
        invariant
            i <= departments@.len(),
            forall|k: int| 0 <= k < i ==> (#[trigger] departments@[k]).tenant_id == t,
        decreases departments.len() - i,
    {
        if departments[i].tenant_id != t {
            return true;
        }
        i = i + 1;
    }
    false
}

/// Refuses an assignment of departments as `department_assignment_problem`
/// says.
pub fn check_departments_assignable(
    scope: EffectiveDataScope,
    target_tenant_id: Option<i32>,
    department_ids: &Vec<i32>,
    current_department_id: Option<i32>,
    departments: &Vec<DepartmentFacts>,
) -> (r: ApiResult<()>)
    ensures
        match department_assignment_problem(
            scope,
            target_tenant_id,
            department_ids@,
            current_department_id,
            departments@,
        ) {
            None => r is Ok,
            Some((kind, m)) => r matches Err(e) && is_error(e, kind, m),
        },
{
    match current_department_id {
        Some(c) => if !contains_id(department_ids, c) {
            return Err(ApiError::bad_request("current department must be assigned to user"));
        },
        None => {},
    }
    if departments.len() != department_ids.len() {
        return Err(ApiError::bad_request("invalid department ids"));
    }
    if any_disabled(departments) {
        return Err(ApiError::bad_request("department is disabled"));
    }
    match scope {
        EffectiveDataScope::All => {
            match target_tenant_id {
                Some(t) => if any_other_tenant(departments, t) {
                    return Err(ApiError::bad_request("department must belong to user's tenant"));
                },
                None => {},
            }
            Ok(())
        },
        EffectiveDataScope::Tenant { tenant_id: t } | EffectiveDataScope::Department { tenant_id: t } => {
            if target_tenant_id != Some(t) {
                return Err(ApiError::forbidden("cannot assign departments across tenants"));
            }
            if any_other_tenant(departments, t) {
                return Err(ApiError::forbidden("cannot assign department outside current tenant"));
            }
            Ok(())
        },
        _ => Err(ApiError::forbidden("data scope denied")),
    }
}

/// The links a user's departments are saved as: each department, marked
/// primary when it is the current one.
pub fn department_links(department_ids: &Vec<i32>, current_department_id: Option<i32>) -> (r: Vec<
    (i32, bool),
>)
    ensures
        r@.len() == department_ids@.len(),
        forall|i: int|
            0 <= i < r@.len() ==> (#[trigger] r@[i]).0 == department_ids@[i] && r@[i].1 == (Some(
                department_ids@[i],
            ) == current_department_id),
{
    let mut r: Vec<(i32, bool)> = Vec::new();
    let mut i: usize = 0;
    while i < department_ids.len()
        invariant
            i <= department_ids@.len(),
            r@.len() == i,
            forall|k: int|
                0 <= k < i ==> (#[trigger] r@[k]).0 == department_ids@[k] && r@[k].1 == (Some(
                    department_ids@[k],
                ) == current_department_id),
        decreases department_ids.len() - i,
    {
        let id = department_ids[i];
        r.push((id, Some(id) == current_department_id));
        i = i + 1;
    }
    r
}

/// A stored link between a user and a department.
#[derive(Clone, Copy, Debug, PartialEq, Eq, Structural)]
pub struct DepartmentLink {
    pub department_id: i32,
    pub is_primary: bool,
}

/// Whether a department is a user's primary one: some link to it says so.
pub fn is_primary_department(links: &Vec<DepartmentLink>, department_id: i32) -> (b: bool)
    ensures
        b == exists|i: int|
            0 <= i < links@.len() && (#[trigger] links@[i]).department_id == department_id
                && links@[i].is_primary,
{
    let mut i: usize = 0;
    while i < links.len()
        invariant
            i <= links@.len(),
            forall|k: int|
                0 <= k < i ==> !((#[trigger] links@[k]).department_id == department_id
                    && links@[k].is_primary),
        decreases links.len() - i,
    {
        if links[i].department_id == department_id && links[i].is_primary {
            return true;
        }
        i = i + 1;
    }
    false
}

} // verus!
