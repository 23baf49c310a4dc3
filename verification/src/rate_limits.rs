use vstd::prelude::*;

use crate::error::{is_bad_request, ApiError, ApiResult};
use crate::pagination::{page, page_number, page_size, page_size_number};
use crate::text::{is_blank, is_blank_seq, str_eq};

verus! {

#[derive(Debug)]
pub struct RateLimitQueryParams {
    pub page: Option<u64>,
    pub page_size: Option<u64>,
    pub enabled: Option<bool>,
}

impl RateLimitQueryParams {
    pub fn page(&self) -> (p: u64)
        ensures
            p == page_number(self.page),
    {
        page(self.page)
    }

    pub fn page_size(&self) -> (s: u64)
        ensures
            s == page_size_number(self.page_size),
    {
        page_size(self.page_size)
    }
}

#[derive(Debug)]
pub struct RateLimitEventQueryParams {
    pub page: Option<u64>,
    pub page_size: Option<u64>,
    pub rule_id: Option<i32>,
    pub ip: Option<String>,
}

impl RateLimitEventQueryParams {
    pub fn page(&self) -> (p: u64)
        ensures
            p == page_number(self.page),
    {
        page(self.page)
    }

    pub fn page_size(&self) -> (s: u64)
        ensures
            s == page_size_number(self.page_size),
    {
        page_size(self.page_size)
    }
}

#[derive(Debug)]
pub struct RateLimitRuleRecord {
    pub id: i32,
    pub name: String,
    pub scope: String,
    pub path_pattern: String,
    pub method: Option<String>,
    pub limit_count: i32,
    pub window_seconds: i32,
    pub enabled: bool,
    pub description: Option<String>,
    pub created_at: String,
    pub updated_at: String,
}

#[derive(Debug)]
pub struct RateLimitEventRecord {
    pub id: i32,
    pub ip: String,
    pub method: String,
    pub path: String,
    pub rule_id: Option<i32>,
    pub user_id: Option<i32>,
    pub occurred_at: String,
    pub created_at: String,
    pub updated_at: String,
}

#[derive(Debug)]
pub struct SaveRateLimitRuleParams {
    pub name: String,
    pub scope: String,
    pub path_pattern: String,
    pub method: Option<String>,
    pub limit_count: i32,
    pub window_seconds: i32,
    pub enabled: Option<bool>,
    pub description: Option<String>,
}

/// Why a rate-limit rule is refused, if it is: it needs a name and a path,
/// a positive count and window, and a scope of "ip", "user" or "global".
pub open spec fn rule_problem(p: SaveRateLimitRuleParams) -> Option<Seq<char>> {
    if is_blank_seq(p.name@) || is_blank_seq(p.path_pattern@) {
        Some("rate limit name and path are required"@)
    } else if p.limit_count <= 0 || p.window_seconds <= 0 {
        Some("rate limit count and window must be positive"@)
    } else if !(p.scope@ == "ip"@ || p.scope@ == "user"@ || p.scope@ == "global"@) {
        Some("unsupported rate limit scope"@)
    } else {
        None
    }
}

/// Refuses a rate-limit rule as `rule_problem` says.
pub fn validate_rule(params: &SaveRateLimitRuleParams) -> (r: ApiResult<()>)
    ensures
        r is Ok <==> rule_problem(*params) is None,
        r matches Err(e) ==> rule_problem(*params) matches Some(m) && is_bad_request(e, m),
{
    if is_blank(params.name.as_str()) || is_blank(params.path_pattern.as_str()) {
        return Err(ApiError::bad_request("rate limit name and path are required"));
    }
    if params.limit_count <= 0 || params.window_seconds <= 0 {
        return Err(ApiError::bad_request("rate limit count and window must be positive"));
    }
    if str_eq(params.scope.as_str(), "ip") || str_eq(params.scope.as_str(), "user") || str_eq(
        params.scope.as_str(),
        "global",
    ) {
        Ok(())
    } else {
        Err(ApiError::bad_request("unsupported rate limit scope"))
    }
}

} // verus!
