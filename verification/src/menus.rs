use vstd::prelude::*;

use crate::text::clone_opt;

use crate::error::{is_bad_request, ApiError, ApiResult};

verus! {

/// A menu entry with the entries below it.
#[derive(Debug)]
pub struct MenuRecord {
    pub id: i32,
    pub parent_id: Option<i32>,
    pub title: String,
    pub path: Option<String>,
    pub icon: Option<String>,
    pub permission_code: Option<String>,
    pub sort_order: i32,
    pub visible: bool,
    pub enabled: bool,
    pub children: Vec<MenuRecord>,
}

#[derive(Debug)]
pub struct SaveMenuParams {
    pub parent_id: Option<i32>,
    pub title: String,
    pub path: Option<String>,
    pub icon: Option<String>,
    pub permission_code: Option<String>,
    pub sort_order: Option<i32>,
    pub visible: Option<bool>,
    pub enabled: Option<bool>,
}

/// A stored menu entry.
#[derive(Debug)]
pub struct MenuItem {
    pub id: i32,
    pub parent_id: Option<i32>,
    pub title: String,
    pub path: Option<String>,
    pub icon: Option<String>,
    pub permission_code: Option<String>,
    pub sort_order: i32,
    pub visible: bool,
    pub enabled: bool,
}

/// The entries of `menus` directly below `parent` (the top level for
/// `None`), in their order in `menus`.
pub open spec fn children_of(menus: Seq<MenuItem>, parent: Option<i32>) -> Seq<MenuItem>
    decreases menus.len(),
{
    if menus.len() == 0 {
        Seq::empty()
    } else if menus.last().parent_id == parent {
        children_of(menus.drop_last(), parent).push(menus.last())
    } else {
        children_of(menus.drop_last(), parent)
    }
}

/// Holds when the record shows the entry (apart from what is below it).
pub open spec fn shows_menu(r: MenuRecord, m: MenuItem) -> bool {
    &&& r.id == m.id && r.parent_id == m.parent_id
    &&& r.title == m.title && r.path == m.path && r.icon == m.icon
    &&& r.permission_code == m.permission_code
    &&& r.sort_order == m.sort_order && r.visible == m.visible && r.enabled == m.enabled
}

/// Holds when `records` are the entries below `parent`, in order, each with
/// the entries below it in turn, down to `depth` levels.
pub open spec fn menu_forest(records: Seq<MenuRecord>, menus: Seq<MenuItem>, parent: Option<i32>, depth: nat) -> bool
    decreases depth,
{
    if depth == 0 {
        records.len() == 0
    } else {
        let kids = children_of(menus, parent);
        &&& records.len() == kids.len()
        &&& forall|i: int|
            0 <= i < kids.len() ==> shows_menu(#[trigger] records[i], kids[i]) && menu_forest(
                records[i].children@,
                menus,
                Some(kids[i].id),
                (depth - 1) as nat,
            )
    }
}

fn build_children(menus: &Vec<MenuItem>, parent: Option<i32>, depth: usize) -> (r: Vec<MenuRecord>)
    ensures
        menu_forest(r@, menus@, parent, depth as nat),
    decreases depth,
{
    if depth == 0 {
        return Vec::new();
    }
    let mut out: Vec<MenuRecord> = Vec::new();
    let mut i: usize = 0;
    while i < menus.len()
        invariant
            0 < depth,
            i <= menus@.len(),
            out@.len() == children_of(menus@.take(i as int), parent).len(),
            forall|k: int|
                0 <= k < out@.len() ==> shows_menu(
                    #[trigger] out@[k],
                    children_of(menus@.take(i as int), parent)[k],
                ) && menu_forest(
                    out@[k].children@,
                    menus@,
                    Some(children_of(menus@.take(i as int), parent)[k].id),
                    (depth - 1) as nat,
                ),
        decreases menus.len() - i,
    {
        let ghost before = children_of(menus@.take(i as int), parent);
        proof {
            assert(menus@.take(i + 1).drop_last() =~= menus@.take(i as int));
            assert(menus@.take(i + 1).last() == menus@[i as int]);
        }
        if menus[i].parent_id == parent {
            let m = &menus[i];
            let children = build_children(menus, Some(m.id), depth - 1);
            let ghost old_out = out@;
            out.push(
                MenuRecord {
                    id: m.id,
                    parent_id: m.parent_id,
                    title: m.title.clone(),
                    path: clone_opt(&m.path),
                    icon: clone_opt(&m.icon),
                    permission_code: clone_opt(&m.permission_code),
                    sort_order: m.sort_order,
                    visible: m.visible,
                    enabled: m.enabled,
                    children,
                },
            );
            proof {
                let now = children_of(menus@.take(i + 1), parent);
                assert(now == before.push(menus@[i as int]));
                assert forall|k: int| 0 <= k < out@.len() implies shows_menu(#[trigger] out@[k], now[k])
                    && menu_forest(out@[k].children@, menus@, Some(now[k].id), (depth - 1) as nat) by {
                    if k < old_out.len() {
                        assert(out@[k] == old_out[k]);
                    }
                }
            }
        }
        i = i + 1;
    }
    proof {
        assert(menus@.take(menus@.len() as int) =~= menus@);
    }
    out
}

/// The menu tree: the top-level entries in order, each with the entries
/// below it, as deep as the entries go (a tree of `n` entries is at most
/// `n` deep).
pub fn build_tree(menus: Vec<MenuItem>) -> (r: Vec<MenuRecord>)
    requires
        menus@.len() < usize::MAX,
    ensures
        menu_forest(r@, menus@, None, (menus@.len() + 1) as nat),
{
    build_children(&menus, None, menus.len() + 1)
}

/// Holds when `level` ranks the entries below `menus.len()` so that each
/// entry ranks above the entry it is placed under: the parent links form no
/// cycle (every acyclic placement has such a ranking, by longest chain).
pub open spec fn ranked_without_cycle(menus: Seq<MenuItem>, level: spec_fn(i32) -> nat) -> bool {
    &&& forall|i: int| 0 <= i < menus.len() ==> level((#[trigger] menus[i]).id) < menus.len()
    &&& forall|i: int, j: int|
        0 <= i < menus.len() && 0 <= j < menus.len() && (#[trigger] menus[i]).parent_id == Some(
            (#[trigger] menus[j]).id,
        ) ==> level(menus[i].id) > level(menus[j].id)
}

/// Every entry directly below `parent` is one of `menus`, placed under it.
proof fn lemma_children_of(menus: Seq<MenuItem>, parent: Option<i32>)
    ensures
        forall|k: int|
            0 <= k < children_of(menus, parent).len() ==> (#[trigger] children_of(menus, parent)[k]).parent_id
                == parent && exists|j: int| 0 <= j < menus.len() && menus[j] == children_of(menus, parent)[k],
    decreases menus.len(),
{
    if menus.len() > 0 {
        let init = menus.drop_last();
        lemma_children_of(init, parent);
        let c = children_of(menus, parent);
        assert forall|k: int| 0 <= k < c.len() implies (#[trigger] c[k]).parent_id == parent
            && exists|j: int| 0 <= j < menus.len() && menus[j] == c[k] by {
            if k < children_of(init, parent).len() {
                assert(c[k] == children_of(init, parent)[k]);
                let j = choose|j: int| 0 <= j < init.len() && init[j] == children_of(init, parent)[k];
                assert(menus[j] == init[j]);
            } else {
                assert(c[k] == menus.last());
                assert(menus[menus.len() - 1] == menus.last());
            }
        }
    }
}

/// A forest whose entries all rank at least `menus.len() + 1 - depth` is
/// complete at `depth`: building it deeper gives the same records.
proof fn lemma_forest_deeper(
    records: Seq<MenuRecord>,
    menus: Seq<MenuItem>,
    parent: Option<i32>,
    depth: nat,
    deeper: nat,
    level: spec_fn(i32) -> nat,
)
    requires
        1 <= depth <= deeper,
        menu_forest(records, menus, parent, depth),
        ranked_without_cycle(menus, level),
        forall|k: int|
            0 <= k < children_of(menus, parent).len() ==> level(
                (#[trigger] children_of(menus, parent)[k]).id,
            ) + depth > menus.len(),
    ensures
        menu_forest(records, menus, parent, deeper),
    decreases depth,
{
    let kids = children_of(menus, parent);
    lemma_children_of(menus, parent);
    assert forall|i: int| 0 <= i < kids.len() implies shows_menu(#[trigger] records[i], kids[i])
        && menu_forest(records[i].children@, menus, Some(kids[i].id), (deeper - 1) as nat) by {
        let kid = kids[i];
        let below = children_of(menus, Some(kid.id));
        lemma_children_of(menus, Some(kid.id));
        let j = choose|j: int| 0 <= j < menus.len() && menus[j] == kid;
        assert(level(kid.id) + depth > menus.len());
        assert forall|k: int| 0 <= k < below.len() implies level((#[trigger] below[k]).id) + (depth
            - 1) > menus.len() by {
            let j2 = choose|j2: int| 0 <= j2 < menus.len() && menus[j2] == below[k];
            assert(menus[j2].parent_id == Some(menus[j].id));
            assert(level(menus[j2].id) > level(menus[j].id));
        }
        if depth == 1 {
            if below.len() > 0 {
                let j2 = choose|j2: int| 0 <= j2 < menus.len() && menus[j2] == below[0];
                assert(level(menus[j2].id) < menus.len());
                assert(level(below[0].id) + 0 > menus.len());
            }
            assert(records[i].children@.len() == 0);
        } else {
            lemma_forest_deeper(
                records[i].children@,
                menus,
                Some(kid.id),
                (depth - 1) as nat,
                (deeper - 1) as nat,
                level,
            );
        }
    }
}

/// Law: when the parent links form no cycle, the menu tree that
/// `build_tree` states (down to one level more than there are entries) is
/// complete: the same records satisfy the tree at every greater depth, so
/// the tree holds every entry below the top level, as deep as it lies.
pub proof fn law_menu_tree_is_complete(
    records: Seq<MenuRecord>,
    menus: Seq<MenuItem>,
    level: spec_fn(i32) -> nat,
    depth: nat,
)
    requires
        menu_forest(records, menus, None, (menus.len() + 1) as nat),
        ranked_without_cycle(menus, level),
        depth > menus.len(),
    ensures
        menu_forest(records, menus, None, depth),
{
    lemma_forest_deeper(records, menus, None, (menus.len() + 1) as nat, depth, level);
}

/// A menu cannot be its own parent.
pub fn check_menu_parent(id: i32, parent_id: Option<i32>) -> (r: ApiResult<()>)
    ensures
        r is Ok <==> parent_id != Some(id),
        r matches Err(e) ==> is_bad_request(e, "menu cannot be its own parent"@),
{
    if parent_id == Some(id) {
        Err(ApiError::bad_request("menu cannot be its own parent"))
    } else {
        Ok(())
    }
}

/// A menu can be deleted unless entries are below it ("menu has children")
/// or roles are granted it ("menu is assigned to roles").
pub fn check_menu_delete(child_count: u64, grant_count: u64) -> (r: ApiResult<()>)
    ensures
        child_count > 0 ==> (r matches Err(e) && is_bad_request(e, "menu has children"@)),
        child_count == 0 && grant_count > 0 ==> (r matches Err(e) && is_bad_request(
            e,
            "menu is assigned to roles"@,
        )),
        child_count == 0 && grant_count == 0 ==> r is Ok,
{
    if child_count > 0 {
        return Err(ApiError::bad_request("menu has children"));
    }
    if grant_count > 0 {
        return Err(ApiError::bad_request("menu is assigned to roles"));
    }
    Ok(())
}

} // verus!
