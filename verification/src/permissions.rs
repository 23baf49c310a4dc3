use vstd::prelude::*;

use crate::error::{is_bad_request, ApiError, ApiResult};

verus! {

/// A permission as the API shows it.
#[derive(Debug)]
pub struct PermissionRecord {
    pub id: i32,
    pub name: String,
    pub code: String,
    pub group_name: String,
    pub description: Option<String>,
    pub created_at: String,
    pub updated_at: String,
}

/// The fields of a permission to create or update.
#[derive(Debug)]
pub struct SavePermissionParams {
    pub name: String,
    pub code: String,
    pub group_name: String,
    pub description: Option<String>,
}

/// A permission that some role is still granted cannot be deleted.
pub fn check_permission_delete(grant_count: u64) -> (r: ApiResult<()>)
    ensures
        r is Ok <==> grant_count == 0,
        r matches Err(e) ==> is_bad_request(e, "permission is assigned to roles"@),
{
    if grant_count > 0 {
        Err(ApiError::bad_request("permission is assigned to roles"))
    } else {
        Ok(())
    }
}

} // verus!
