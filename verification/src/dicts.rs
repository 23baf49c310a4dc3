use vstd::prelude::*;

use crate::error::{is_bad_request, ApiError, ApiResult};
use crate::json::{json_shape, parse_json_shape, JsonShape};

verus! {

#[derive(Debug)]
pub struct DictTypeRecord {
    pub id: i32,
    pub code: String,
    pub name: String,
    pub description: Option<String>,
    pub enabled: bool,
    pub is_builtin: bool,
    pub sort_order: i32,
    pub created_at: String,
    pub updated_at: String,
}

#[derive(Debug)]
pub struct SaveDictTypeParams {
    pub code: String,
    pub name: String,
    pub description: Option<String>,
    pub enabled: Option<bool>,
    pub is_builtin: Option<bool>,
    pub sort_order: Option<i32>,
}

#[derive(Debug)]
pub struct DictItemRecord {
    pub id: i32,
    pub dict_type_id: i32,
    pub label: String,
    pub value: String,
    pub color: Option<String>,
    pub extra: Option<String>,
    pub enabled: bool,
    pub is_default: bool,
    pub sort_order: i32,
    pub created_at: String,
    pub updated_at: String,
}

#[derive(Debug)]
pub struct SaveDictItemParams {
    pub dict_type_id: i32,
    pub label: String,
    pub value: String,
    pub color: Option<String>,
    pub extra: Option<String>,
    pub enabled: Option<bool>,
    pub is_default: Option<bool>,
    pub sort_order: Option<i32>,
}

/// The extra data of a dictionary item: absent or empty, or JSON.
pub fn validate_extra(extra: Option<&str>) -> (r: ApiResult<()>)
    ensures
        r is Ok <==> match extra {
            Some(x) => x@.len() == 0 || json_shape(x@) != JsonShape::Invalid,
            None => true,
        },
        r matches Err(e) ==> is_bad_request(e, "dict item extra must be valid json"@),
{
    match extra {
        Some(x) => {
            if x.is_empty() {
                return Ok(());
            }
            match parse_json_shape(x) {
                JsonShape::Invalid => Err(ApiError::bad_request("dict item extra must be valid json")),
                _ => Ok(()),
            }
        },
        None => Ok(()),
    }
}

/// A builtin dictionary type cannot be deleted, nor one that still has
/// items.
pub fn check_type_delete(is_builtin: bool, item_count: u64) -> (r: ApiResult<()>)
    ensures
        is_builtin ==> (r matches Err(e) && is_bad_request(e, "builtin dict type cannot be deleted"@)),
        !is_builtin && item_count > 0 ==> (r matches Err(e) && is_bad_request(
            e,
            "dict type has items"@,
        )),
        !is_builtin && item_count == 0 ==> r is Ok,
{
    if is_builtin {
        return Err(ApiError::bad_request("builtin dict type cannot be deleted"));
    }
    if item_count > 0 {
        return Err(ApiError::bad_request("dict type has items"));
    }
    Ok(())
}

/// A default dictionary item cannot be deleted.
pub fn check_item_delete(is_default: bool) -> (r: ApiResult<()>)
    ensures
        r is Ok <==> !is_default,
        r matches Err(e) ==> is_bad_request(e, "default dict item cannot be deleted"@),
{
    if is_default {
        Err(ApiError::bad_request("default dict item cannot be deleted"))
    } else {
        Ok(())
    }
}

} // verus!
