use vstd::prelude::*;

use crate::access::Actor;
use crate::error::{is_bad_request, is_error, ApiError, ApiResult, ErrorKind};
use crate::pagination::{page, page_number, page_size, page_size_number};
use crate::text::{is_blank, is_blank_seq, str_eq};

verus! {

#[derive(Debug)]
pub struct NotificationQueryParams {
    pub page: Option<u64>,
    pub page_size: Option<u64>,
    pub keyword: Option<String>,
    pub level: Option<String>,
    pub category: Option<String>,
    pub read: Option<bool>,
}

impl NotificationQueryParams {
    pub fn page(&self) -> (p: u64)
        ensures
            p == page_number(self.page),
    {
        page(self.page)
    }

    pub fn page_size(&self) -> (s: u64)
        ensures
            s == page_size_number(self.page_size),
    {
        page_size(self.page_size)
    }
}

#[derive(Debug)]
pub struct NotificationRecord {
    pub id: i32,
    pub title: String,
    pub content: String,
    pub level: String,
    pub category: String,
    pub target_type: String,
    pub target_user_id: Option<i32>,
    pub tenant_id: Option<i32>,
    pub read_at: Option<String>,
    pub created_by: Option<i32>,
    pub created_at: String,
    pub updated_at: String,
}

#[derive(Debug)]
pub struct SaveNotificationParams {
    pub title: String,
    pub content: String,
    pub level: String,
    pub category: String,
    pub target_type: String,
    pub target_user_id: Option<i32>,
    pub tenant_id: Option<i32>,
}

/// Who a notification is for.
#[derive(Debug)]
pub struct NotificationTarget {
    pub target_type: String,
    pub target_user_id: Option<i32>,
    pub tenant_id: Option<i32>,
}

/// Holds when a notification reaches `actor`: it is for everyone, for the
/// actor, or for the actor's tenant.
pub open spec fn notification_visible(actor: Actor, n: NotificationTarget) -> bool {
    n.target_type@ == "all"@ || n.target_user_id == Some(actor.id) || (actor.tenant_id is Some
        && n.tenant_id == actor.tenant_id)
}

/// Whether a notification reaches the actor (see `notification_visible`).
pub fn is_visible(actor: &Actor, notification: &NotificationTarget) -> (b: bool)
    ensures
        b == notification_visible(*actor, *notification),
{
    if str_eq(notification.target_type.as_str(), "all") {
        return true;
    }
    if notification.target_user_id == Some(actor.id) {
        return true;
    }
    match actor.tenant_id {
        Some(t) => notification.tenant_id == Some(t),
        None => false,
    }
}

/// A notification can be read by a super administrator, or by one it
/// reaches ("notification is not visible", forbidden).
pub fn check_visible(is_super_admin: bool, actor: &Actor, notification: &NotificationTarget) -> (r: ApiResult<()>)
    ensures
        r is Ok <==> (is_super_admin || notification_visible(*actor, *notification)),
        r matches Err(e) ==> is_error(e, ErrorKind::Forbidden, "notification is not visible"@),
{
    if is_super_admin || is_visible(actor, notification) {
        Ok(())
    } else {
        Err(ApiError::forbidden("notification is not visible"))
    }
}

/// Why a notification is refused, if it is.
pub open spec fn notification_problem(p: SaveNotificationParams) -> Option<Seq<char>> {
    if is_blank_seq(p.title@) || is_blank_seq(p.content@) {
        Some("notification title and content are required"@)
    } else if !(p.target_type@ == "all"@ || p.target_type@ == "user"@ || p.target_type@ == "tenant"@) {
        Some("unsupported notification target type"@)
    } else {
        None
    }
}

/// Refuses a notification as `notification_problem` says.
pub fn validate_notification(params: &SaveNotificationParams) -> (r: ApiResult<()>)
    ensures
        r is Ok <==> notification_problem(*params) is None,
        r matches Err(e) ==> notification_problem(*params) matches Some(m) && is_bad_request(e, m),
{
    if is_blank(params.title.as_str()) || is_blank(params.content.as_str()) {
        return Err(ApiError::bad_request("notification title and content are required"));
    }
    if str_eq(params.target_type.as_str(), "all") || str_eq(params.target_type.as_str(), "user")
        || str_eq(params.target_type.as_str(), "tenant") {
        Ok(())
    } else {
        Err(ApiError::bad_request("unsupported notification target type"))
    }
}

} // verus!
