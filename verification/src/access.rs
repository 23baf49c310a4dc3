use vstd::prelude::*;

use crate::text::{is_blank, is_blank_seq};

verus! {

/// The signed-in user as the visibility rules see them: their id and the
/// tenant they belong to, if any.
#[derive(Clone, Copy, Debug, PartialEq, Eq, Structural)]
pub struct Actor {
    pub id: i32,
    pub tenant_id: Option<i32>,
}

/// Holds when the actor belongs to the tenant `tenant_id` (never for a row
/// without a tenant).
pub open spec fn same_tenant(actor: Actor, tenant_id: Option<i32>) -> bool {
    actor.tenant_id is Some && tenant_id == actor.tenant_id
}

/// Whether a row of `tenant_id` belongs to the actor's tenant.
pub fn tenant_is_visible(actor: &Actor, tenant_id: Option<i32>) -> (b: bool)
    ensures
        b == same_tenant(*actor, tenant_id),
{
    match actor.tenant_id {
        Some(t) => match tenant_id {
            Some(u) => t == u,
            None => false,
        },
        None => false,
    }
}

/// The name an operation is logged under: the user's name unless it is
/// blank, else their e-mail address.
pub fn operator_name(name: &String, email: &String) -> (r: String)
    ensures
        r@ == if is_blank_seq(name@) {
            email@
        } else {
            name@
        },
{
    if is_blank(name.as_str()) {
        email.clone()
    } else {
        name.clone()
    }
}

} // verus!
