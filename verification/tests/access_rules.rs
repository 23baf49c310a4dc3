use admin_backend::access::{operator_name, tenant_is_visible, Actor};
use admin_backend::error::{ApiError, ErrorKind};
use admin_backend::id_lists::sorted_unique_ids;
use admin_backend::menus::{build_tree, check_menu_delete, check_menu_parent, MenuItem};
use admin_backend::permissions::check_permission_delete;
use admin_backend::roles::{
    check_data_scope_codes, check_found_count, check_role_create, check_role_delete,
    check_role_mutable, check_role_update, grants_by_menu, RoleMenuGrant,
};
use admin_backend::scope::{
    ensure_tenant_allowed, ensure_user_allowed, resolve_owned_tenant, resolve_role_tenant,
    resolve_user_tenant, role_rows_filter, tenant_of_scope, tenant_rows_filter, user_rows_filter,
    EffectiveDataScope, ScopeFilter,
};
use admin_backend::tenants::{check_tenant_delete, check_tenant_update, require_all_scope, validate_tenant, SaveTenantParams};
use admin_backend::users_admin::{
    check_departments_assignable, check_not_current_user, check_roles_assignable, department_links,
    is_primary_department, DepartmentFacts, DepartmentLink, RoleFacts,
};

fn is_err(e: &ApiError, kind: ErrorKind, message: &str) -> bool {
    e.kind == kind && e.message == message
}

const SUPER: &str = "super_admin";

#[test]
fn tenant_visibility() {
    let actor = Actor { id: 1, tenant_id: Some(5) };
    assert!(tenant_is_visible(&actor, Some(5)));
    assert!(!tenant_is_visible(&actor, Some(6)));
    assert!(!tenant_is_visible(&actor, None));
    assert!(!tenant_is_visible(&Actor { id: 1, tenant_id: None }, None));
    assert_eq!(operator_name(&"  ".to_string(), &"a@x.io".to_string()), "a@x.io");
    assert_eq!(operator_name(&"Ann".to_string(), &"a@x.io".to_string()), "Ann");
}

#[test]
fn scope_filters() {
    let t = EffectiveDataScope::Tenant { tenant_id: 3 };
    let d = EffectiveDataScope::Department { tenant_id: 4 };
    let s = EffectiveDataScope::SelfOnly { tenant_id: Some(2), user_id: 9 };
    assert_eq!(tenant_of_scope(t), Some(3));
    assert_eq!(tenant_of_scope(s), None);
    assert_eq!(tenant_rows_filter(EffectiveDataScope::All), ScopeFilter::Everything);
    assert_eq!(tenant_rows_filter(d), ScopeFilter::TenantIs(4));
    assert_eq!(tenant_rows_filter(s), ScopeFilter::TenantIs(2));
    assert_eq!(role_rows_filter(s), ScopeFilter::Nothing);
    assert_eq!(user_rows_filter(s), ScopeFilter::IdIs(9));
    assert_eq!(user_rows_filter(EffectiveDataScope::NoAccess), ScopeFilter::Nothing);
}

#[test]
fn scopes_stay_in_their_tenant() {
    let t = EffectiveDataScope::Tenant { tenant_id: 3 };
    assert!(ensure_tenant_allowed(t, Some(3)).is_ok());
    for other in [Some(4), None] {
        let e = ensure_tenant_allowed(t, other).unwrap_err();
        assert!(is_err(&e, ErrorKind::Forbidden, "data scope denied"));
    }
    assert!(ensure_tenant_allowed(EffectiveDataScope::All, None).is_ok());
    assert!(ensure_tenant_allowed(EffectiveDataScope::NoAccess, Some(3)).is_err());
    let own = EffectiveDataScope::SelfOnly { tenant_id: Some(3), user_id: 9 };
    assert!(ensure_tenant_allowed(own, Some(3)).is_err());
    assert!(ensure_user_allowed(own, 9, Some(8)).is_ok());
    assert!(ensure_user_allowed(own, 10, Some(3)).is_err());
    assert!(ensure_user_allowed(t, 10, Some(3)).is_ok());
}

#[test]
fn owned_tenants_are_resolved() {
    let t = EffectiveDataScope::Tenant { tenant_id: 3 };
    assert_eq!(resolve_owned_tenant(EffectiveDataScope::All, Some(7), Some(1), "m").unwrap(), 7);
    assert_eq!(resolve_owned_tenant(EffectiveDataScope::All, None, Some(1), "m").unwrap(), 1);
    let e = resolve_owned_tenant(EffectiveDataScope::All, None, None, "m").unwrap_err();
    assert!(is_err(&e, ErrorKind::BadRequest, "tenant_id is required"));
    assert_eq!(resolve_owned_tenant(t, None, None, "m").unwrap(), 3);
    let e = resolve_owned_tenant(t, Some(4), None, "cannot use another tenant").unwrap_err();
    assert!(is_err(&e, ErrorKind::Forbidden, "cannot use another tenant"));
    assert!(resolve_owned_tenant(EffectiveDataScope::NoAccess, None, None, "m").is_err());
    assert_eq!(resolve_user_tenant(EffectiveDataScope::All, None).unwrap(), None);
    assert_eq!(resolve_user_tenant(t, Some(3)).unwrap(), Some(3));
    let e = resolve_user_tenant(t, Some(5)).unwrap_err();
    assert!(is_err(&e, ErrorKind::Forbidden, "cannot assign user to another tenant"));
    let e = resolve_role_tenant(EffectiveDataScope::Department { tenant_id: 3 }, None).unwrap_err();
    assert!(is_err(&e, ErrorKind::Forbidden, "data scope denied"));
    let e = resolve_role_tenant(t, Some(5)).unwrap_err();
    assert!(is_err(&e, ErrorKind::Forbidden, "cannot assign role to another tenant"));
    assert_eq!(resolve_role_tenant(t, None).unwrap(), Some(3));
}

#[test]
fn role_rules() {
    assert!(check_role_create("editor", SUPER, false).is_ok());
    let e = check_role_create(SUPER, SUPER, false).unwrap_err();
    assert!(is_err(&e, ErrorKind::Forbidden, "cannot create super admin role"));
    assert!(check_role_create(SUPER, SUPER, true).is_ok());
    let e = check_role_mutable(SUPER, SUPER, false).unwrap_err();
    assert!(is_err(&e, ErrorKind::Forbidden, "cannot mutate super admin role"));
    let e = check_role_update(true, "admin", "boss").unwrap_err();
    assert!(is_err(&e, ErrorKind::BadRequest, "system role code cannot be changed"));
    assert!(check_role_update(true, "admin", "admin").is_ok());
    assert!(check_role_delete(false, "editor", SUPER).is_ok());
    let e = check_role_delete(false, SUPER, SUPER).unwrap_err();
    assert!(is_err(&e, ErrorKind::BadRequest, "system role cannot be deleted"));
    let e = check_found_count(2, 3, "invalid permission ids").unwrap_err();
    assert!(is_err(&e, ErrorKind::BadRequest, "invalid permission ids"));
    let codes = vec!["tenant".to_string(), "all".to_string()];
    let e = check_data_scope_codes(false, &codes).unwrap_err();
    assert!(is_err(&e, ErrorKind::Forbidden, "cannot assign all data scope"));
    assert!(check_data_scope_codes(true, &codes).is_ok());
}

fn grant(menu_id: i32, can_create: bool) -> RoleMenuGrant {
    RoleMenuGrant {
        menu_id,
        can_create,
        can_update: false,
        can_delete: false,
        can_import: false,
        can_export: false,
        can_print: false,
        can_help: false,
    }
}

#[test]
fn last_grant_per_menu_wins() {
    let r = grants_by_menu(vec![grant(5, false), grant(2, true), grant(5, true)]);
    assert_eq!(r, vec![grant(2, true), grant(5, true)]);
    assert_eq!(grants_by_menu(vec![]), vec![]);
}

#[test]
fn id_lists_are_sorted_and_unique() {
    assert_eq!(sorted_unique_ids(vec![3, 1, 3, 2, 1]), vec![1, 2, 3]);
    let once = sorted_unique_ids(vec![9, -1, 9]);
    assert_eq!(sorted_unique_ids(once.clone()), once);
}

#[test]
fn tenant_rules() {
    assert!(require_all_scope(EffectiveDataScope::All).is_ok());
    let e = require_all_scope(EffectiveDataScope::Tenant { tenant_id: 1 }).unwrap_err();
    assert!(is_err(&e, ErrorKind::Forbidden, "data scope denied"));
    let params = SaveTenantParams { name: " ".to_string(), code: "t1".to_string(), description: None, enabled: None };
    let e = validate_tenant(&params).unwrap_err();
    assert!(is_err(&e, ErrorKind::BadRequest, "tenant name and code are required"));
    assert!(check_tenant_update(true, "t1", "t2").is_err());
    assert!(check_tenant_update(false, "t1", "t2").is_ok());
    let e = check_tenant_delete(true, 0, 0).unwrap_err();
    assert!(is_err(&e, ErrorKind::BadRequest, "system tenant cannot be deleted"));
    let e = check_tenant_delete(false, 0, 1).unwrap_err();
    assert!(is_err(&e, ErrorKind::BadRequest, "tenant has users or roles"));
    assert!(check_tenant_delete(false, 0, 0).is_ok());
}

#[test]
fn user_rules() {
    let e = check_not_current_user(4, 4).unwrap_err();
    assert!(is_err(&e, ErrorKind::BadRequest, "cannot delete current user"));
    assert!(check_not_current_user(4, 5).is_ok());
}

fn role(tenant_id: Option<i32>, code: &str) -> RoleFacts {
    RoleFacts { tenant_id, code: code.to_string() }
}

#[test]
fn role_assignments() {
    let all = EffectiveDataScope::All;
    let t = EffectiveDataScope::Tenant { tenant_id: 3 };
    let roles = vec![role(Some(3), "editor")];
    assert!(check_roles_assignable(all, false, None, &roles, 1, SUPER).is_ok());
    let e = check_roles_assignable(all, false, None, &roles, 2, SUPER).unwrap_err();
    assert!(is_err(&e, ErrorKind::BadRequest, "invalid role ids"));
    let sup = vec![role(None, SUPER)];
    let e = check_roles_assignable(all, false, None, &sup, 1, SUPER).unwrap_err();
    assert!(is_err(&e, ErrorKind::Forbidden, "cannot assign super admin role"));
    assert!(check_roles_assignable(all, true, None, &sup, 1, SUPER).is_ok());
    assert!(check_roles_assignable(t, false, Some(3), &roles, 1, SUPER).is_ok());
    let e = check_roles_assignable(t, false, Some(4), &roles, 1, SUPER).unwrap_err();
    assert!(is_err(&e, ErrorKind::Forbidden, "cannot assign roles across tenants"));
    let e = check_roles_assignable(t, false, Some(3), &vec![role(Some(4), "x")], 1, SUPER).unwrap_err();
    assert!(is_err(&e, ErrorKind::Forbidden, "cannot assign role outside current tenant"));
    let e = check_roles_assignable(EffectiveDataScope::NoAccess, false, None, &roles, 1, SUPER).unwrap_err();
    assert!(is_err(&e, ErrorKind::Forbidden, "data scope denied"));
}

#[test]
fn department_assignments() {
    let all = EffectiveDataScope::All;
    let t = EffectiveDataScope::Tenant { tenant_id: 3 };
    let ids = vec![10, 11];
    let deps = vec![DepartmentFacts { tenant_id: 3, enabled: true }, DepartmentFacts { tenant_id: 3, enabled: true }];
    assert!(check_departments_assignable(all, Some(3), &ids, Some(11), &deps).is_ok());
    let e = check_departments_assignable(all, Some(3), &ids, Some(12), &deps).unwrap_err();
    assert!(is_err(&e, ErrorKind::BadRequest, "current department must be assigned to user"));
    let e = check_departments_assignable(all, Some(3), &ids, None, &deps[..1].to_vec()).unwrap_err();
    assert!(is_err(&e, ErrorKind::BadRequest, "invalid department ids"));
    let off = vec![deps[0], DepartmentFacts { tenant_id: 3, enabled: false }];
    let e = check_departments_assignable(all, Some(3), &ids, None, &off).unwrap_err();
    assert!(is_err(&e, ErrorKind::BadRequest, "department is disabled"));
    let e = check_departments_assignable(all, Some(4), &ids, None, &deps).unwrap_err();
    assert!(is_err(&e, ErrorKind::BadRequest, "department must belong to user's tenant"));
    let e = check_departments_assignable(t, Some(4), &ids, None, &deps).unwrap_err();
    assert!(is_err(&e, ErrorKind::Forbidden, "cannot assign departments across tenants"));
    let mixed = vec![deps[0], DepartmentFacts { tenant_id: 5, enabled: true }];
    let e = check_departments_assignable(t, Some(3), &ids, None, &mixed).unwrap_err();
    assert!(is_err(&e, ErrorKind::Forbidden, "cannot assign department outside current tenant"));
    assert_eq!(department_links(&ids, Some(11)), vec![(10, false), (11, true)]);
    let links = vec![DepartmentLink { department_id: 10, is_primary: false }, DepartmentLink { department_id: 11, is_primary: true }];
    assert!(is_primary_department(&links, 11));
    assert!(!is_primary_department(&links, 10));
}

fn menu(id: i32, parent_id: Option<i32>) -> MenuItem {
    MenuItem {
        id,
        parent_id,
        title: format!("m{id}"),
        path: None,
        icon: None,
        permission_code: None,
        sort_order: 0,
        visible: true,
        enabled: true,
    }
}

#[test]
fn menu_tree_nests_children_in_order() {
    let tree = build_tree(vec![menu(1, None), menu(2, Some(1)), menu(3, None), menu(4, Some(2)), menu(5, Some(1))]);
    assert_eq!(tree.iter().map(|m| m.id).collect::<Vec<_>>(), vec![1, 3]);
    assert_eq!(tree[0].children.iter().map(|m| m.id).collect::<Vec<_>>(), vec![2, 5]);
    assert_eq!(tree[0].children[0].children[0].id, 4);
    assert!(tree[1].children.is_empty());
    assert_eq!(tree[0].title, "m1");
}

#[test]
fn menu_rules() {
    assert!(check_menu_parent(3, Some(3)).is_err());
    assert!(check_menu_parent(3, None).is_ok());
    let e = check_menu_delete(1, 1).unwrap_err();
    assert!(is_err(&e, ErrorKind::BadRequest, "menu has children"));
    let e = check_menu_delete(0, 1).unwrap_err();
    assert!(is_err(&e, ErrorKind::BadRequest, "menu is assigned to roles"));
    assert!(check_menu_delete(0, 0).is_ok());
    let e = check_permission_delete(2).unwrap_err();
    assert!(is_err(&e, ErrorKind::BadRequest, "permission is assigned to roles"));
    assert!(check_permission_delete(0).is_ok());
}

#[test]
fn menu_tree_holds_the_deepest_entry_of_a_chain() {
    let menus: Vec<MenuItem> = (1..=6).map(|i| menu(i, if i == 1 { None } else { Some(i - 1) })).collect();
    let tree = build_tree(menus);
    let mut node = &tree[0];
    for id in 2..=6 {
        assert_eq!(node.children.len(), 1);
        node = &node.children[0];
        assert_eq!(node.id, id);
    }
    assert!(node.children.is_empty());
}
