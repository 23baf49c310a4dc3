use vstd::prelude::*;

use std::collections::BTreeMap;

use crate::error::{is_bad_request, is_error, ApiError, ApiResult, ErrorKind};
use crate::text::str_eq;

verus! {

#[derive(Debug)]
pub struct RoleRecord {
    pub id: i32,
    pub name: String,
    pub code: String,
    pub description: Option<String>,
    pub is_system: bool,
    pub enabled: bool,
    pub tenant_id: Option<i32>,
    pub created_at: String,
    pub updated_at: String,
}

#[derive(Debug)]
pub struct SaveRoleParams {
    pub name: String,
    pub code: String,
    pub description: Option<String>,
    pub enabled: Option<bool>,
    pub tenant_id: Option<i32>,
}

#[derive(Debug)]
pub struct RolePermissionIds {
    pub permission_ids: Vec<i32>,
}

/// What a role may do with one menu.
#[derive(Clone, Copy, Debug, PartialEq, Eq, Structural)]
pub struct RoleMenuGrant {
    pub menu_id: i32,
    pub can_create: bool,
    pub can_update: bool,
    pub can_delete: bool,
    pub can_import: bool,
    pub can_export: bool,
    pub can_print: bool,
    pub can_help: bool,
}

#[derive(Debug)]
pub struct RoleMenuGrants {
    pub grants: Vec<RoleMenuGrant>,
}

#[derive(Debug)]
pub struct RoleDataScopeIds {
    pub data_scope_ids: Vec<i32>,
}

/// Only a super administrator creates a role with the super administrator
/// code (`super_admin_code`).
pub fn check_role_create(code: &str, super_admin_code: &str, actor_is_super_admin: bool) -> (r: ApiResult<()>)
    ensures
        r is Ok <==> !(code@ == super_admin_code@ && !actor_is_super_admin),
        r matches Err(e) ==> is_error(e, ErrorKind::Forbidden, "cannot create super admin role"@),
{
    if str_eq(code, super_admin_code) && !actor_is_super_admin {
        Err(ApiError::forbidden("cannot create super admin role"))
    } else {
        Ok(())
    }
}

/// Only a super administrator changes the super administrator role.
pub fn check_role_mutable(code: &str, super_admin_code: &str, actor_is_super_admin: bool) -> (r: ApiResult<()>)
    ensures
        r is Ok <==> !(code@ == super_admin_code@ && !actor_is_super_admin),
        r matches Err(e) ==> is_error(e, ErrorKind::Forbidden, "cannot mutate super admin role"@),
{
    if str_eq(code, super_admin_code) && !actor_is_super_admin {
        Err(ApiError::forbidden("cannot mutate super admin role"))
    } else {
        Ok(())
    }
}

/// A system role keeps its code.
pub fn check_role_update(is_system: bool, current_code: &str, new_code: &str) -> (r: ApiResult<()>)
    ensures
        r is Ok <==> !(is_system && current_code@ != new_code@),
        r matches Err(e) ==> is_bad_request(e, "system role code cannot be changed"@),
{
    if is_system && !str_eq(current_code, new_code) {
        Err(ApiError::bad_request("system role code cannot be changed"))
    } else {
        Ok(())
    }
}

/// System roles, and the super administrator role, cannot be deleted.
pub fn check_role_delete(is_system: bool, code: &str, super_admin_code: &str) -> (r: ApiResult<()>)
    ensures
        r is Ok <==> !(is_system || code@ == super_admin_code@),
        r matches Err(e) ==> is_bad_request(e, "system role cannot be deleted"@),
{
    if is_system || str_eq(code, super_admin_code) {
        Err(ApiError::bad_request("system role cannot be deleted"))
    } else {
        Ok(())
    }
}

/// Every requested id must exist: as many rows were found as distinct ids
/// were asked for (else `message`).
pub fn check_found_count(found: u64, requested: usize, message: &str) -> (r: ApiResult<()>)
    ensures
        r is Ok <==> found == requested,
        r matches Err(e) ==> is_bad_request(e, message@),
{
    if found != requested as u64 {
        Err(ApiError::bad_request(message))
    } else {
        Ok(())
    }
}

/// Only a super administrator grants the data scope "all".
pub fn check_data_scope_codes(actor_is_super_admin: bool, codes: &Vec<String>) -> (r: ApiResult<()>)
    ensures
        r is Ok <==> (actor_is_super_admin || forall|i: int|
            0 <= i < codes@.len() ==> (#[trigger] codes@[i])@ != "all"@),
        r matches Err(e) ==> is_error(e, ErrorKind::Forbidden, "cannot assign all data scope"@),
{
    if actor_is_super_admin {
        return Ok(());
    }
    let mut i: usize = 0;
    while i < codes.len()
        invariant
            !actor_is_super_admin,
            i <= codes@.len(),
            forall|k: int| 0 <= k < i ==> (#[trigger] codes@[k])@ != "all"@,
        decreases codes.len() - i,
    {
        if str_eq(codes[i].as_str(), "all") {
            return Err(ApiError::forbidden("cannot assign all data scope"));
        }
        i = i + 1;
    }
    Ok(())
}

/// The last grant of `grants` for menu `menu_id`, if any.
pub open spec fn last_grant(grants: Seq<RoleMenuGrant>, menu_id: i32) -> Option<RoleMenuGrant>
    decreases grants.len(),
{
    if grants.len() == 0 {
        None
    } else if grants.last().menu_id == menu_id {
        Some(grants.last())
    } else {
        last_grant(grants.drop_last(), menu_id)
    }
}

/// Holds when `result` keeps, for each menu named in `grants`, the last
/// grant for it, ordered by menu id.
pub open spec fn grants_by_menu_spec(result: Seq<RoleMenuGrant>, grants: Seq<RoleMenuGrant>) -> bool {
    &&& forall|i: int, j: int| 0 <= i < j < result.len() ==> result[i].menu_id < result[j].menu_id
    &&& forall|i: int|
        0 <= i < result.len() ==> last_grant(grants, (#[trigger] result[i]).menu_id) == Some(result[i])
    &&& forall|k: int|
        0 <= k < grants.len() ==> exists|i: int|
            0 <= i < result.len() && (#[trigger] result[i]).menu_id == (#[trigger] grants[k]).menu_id
}

/// Menu ids order as integers do, which the ordered map of grants relies on.
proof fn lemma_menu_ids_ordered()
    ensures
        vstd::laws_cmp::obeys_cmp::<i32>(),
        vstd::std_specs::btree::key_obeys_cmp_spec::<i32>(),
        forall|s: Seq<i32>|
            #[trigger] vstd::std_specs::btree::increasing_seq(s) ==> forall|i: int, j: int|
                0 <= i < j < s.len() ==> s[i] < s[j],
{
    broadcast use vstd::std_specs::btree::group_btree_axioms, vstd::laws_cmp::group_laws_cmp;

    assert forall|s: Seq<i32>| #[trigger]
        vstd::std_specs::btree::increasing_seq(s) implies forall|i: int, j: int|
        0 <= i < j < s.len() ==> s[i] < s[j] by {
        assert forall|i: int, j: int| 0 <= i < j < s.len() implies s[i] < s[j] by {
            assert(vstd::std_specs::cmp::OrdSpec::cmp_spec(&s[i], &s[j]) is Less);
        }
    }
}

/// The grants a role keeps: for each menu the last grant sent for it, in
/// order of menu id.
pub fn grants_by_menu(grants: Vec<RoleMenuGrant>) -> (r: Vec<RoleMenuGrant>)
    ensures
        grants_by_menu_spec(r@, grants@),
{
    proof {
        lemma_menu_ids_ordered();
    }
    let mut by_menu: BTreeMap<i32, RoleMenuGrant> = BTreeMap::new();
    let mut i: usize = 0;
    while i < grants.len()
        invariant
            i <= grants@.len(),
            forall|k: i32|
                #[trigger] by_menu@.contains_key(k) ==> by_menu@[k].menu_id == k && last_grant(
                    grants@.take(i as int),
                    k,
                ) == Some(by_menu@[k]),
            forall|j: int| 0 <= j < i ==> by_menu@.contains_key(#[trigger] grants@[j].menu_id),
        decreases grants.len() - i,
    {
        let g = grants[i];
        proof {
            assert(grants@.take(i + 1).drop_last() =~= grants@.take(i as int));
            assert(grants@.take(i + 1).last() == g);
        }
        by_menu.insert(g.menu_id, g);
        i = i + 1;
    }
    proof {
        assert(grants@.take(grants@.len() as int) =~= grants@);
    }
    let mut out: Vec<RoleMenuGrant> = Vec::new();
    let values = by_menu.values();
    let ghost kept = vstd::std_specs::iter::IteratorSpec::remaining(&values);
    for g in it: values
        invariant
            it.seq() == kept,
            out@.len() == it.index(),
            forall|j: int| 0 <= j < it.index() ==> out@[j] == *kept[j],
    {
        out.push(*g);
    }
    proof {
        let m = by_menu@;
        let ks = choose|key_seq: Seq<i32>|
            {
                &&& vstd::std_specs::btree::increasing_seq(key_seq)
                &&& key_seq.to_set() == m.dom()
                &&& key_seq.no_duplicates()
                &&& kept == key_seq.map(|i: int, k: i32| &m[k])
            };
        assert(out@.len() == ks.len());
        assert forall|a: int| 0 <= a < out@.len() implies (#[trigger] out@[a]) == m[ks[a]]
            && m.contains_key(ks[a]) by {
            assert(out@[a] == *kept[a]);
            assert(kept[a] == ks.map(|i: int, k: i32| &m[k])[a]);
            assert(ks.to_set().contains(ks[a]));
        }
        assert forall|a: int, b: int| 0 <= a < b < out@.len() implies out@[a].menu_id
            < out@[b].menu_id by {
            assert(out@[a] == m[ks[a]] && m.contains_key(ks[a]));
            assert(out@[b] == m[ks[b]] && m.contains_key(ks[b]));
        }
        assert forall|a: int| 0 <= a < out@.len() implies last_grant(
            grants@,
            (#[trigger] out@[a]).menu_id,
        ) == Some(out@[a]) by {
            assert(m.contains_key(ks[a]));
        }
        assert forall|k: int| 0 <= k < grants@.len() implies exists|a: int|
            0 <= a < out@.len() && (#[trigger] out@[a]).menu_id == (#[trigger] grants@[k]).menu_id by {
            let id = grants@[k].menu_id;
            assert(m.contains_key(id));
            assert(ks.to_set().contains(id));
            let a = choose|a: int| 0 <= a < ks.len() && ks[a] == id;
            assert(out@[a] == m[ks[a]] && m.contains_key(ks[a]));
        }
    }
    out
}

} // verus!
