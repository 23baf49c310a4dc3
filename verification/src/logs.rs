use vstd::prelude::*;

use crate::pagination::{page, page_number, page_size, page_size_number};
use crate::text::{non_empty, non_empty_spec, opt_view};

verus! {

/// The query of the operation log list.
#[derive(Debug)]
pub struct LogQueryParams {
    pub page: Option<u64>,
    pub page_size: Option<u64>,
    pub keyword: Option<String>,
    pub level: Option<String>,
    pub log_type: Option<String>,
    pub module: Option<String>,
    pub status: Option<i32>,
}

/// The filters that a log query applies: an empty text filters nothing.
#[derive(Debug)]
pub struct LogFilters {
    pub keyword: Option<String>,
    pub level: Option<String>,
    pub log_type: Option<String>,
    pub module: Option<String>,
    pub status: Option<i32>,
}

impl LogQueryParams {
    pub fn page(&self) -> (p: u64)
        ensures
            p == page_number(self.page),
    {
        page(self.page)
    }

    pub fn page_size(&self) -> (s: u64)
        ensures
            s == page_size_number(self.page_size),
    {
        page_size(self.page_size)
    }

    /// The filters of this query; texts that are absent or empty are left out.
    pub fn filters(&self) -> (f: LogFilters)
        ensures
            opt_view(f.keyword) == non_empty_spec(opt_view(self.keyword)),
            opt_view(f.level) == non_empty_spec(opt_view(self.level)),
            opt_view(f.log_type) == non_empty_spec(opt_view(self.log_type)),
            opt_view(f.module) == non_empty_spec(opt_view(self.module)),
            f.status == self.status,
    {
        LogFilters {
            keyword: non_empty(&self.keyword),
            level: non_empty(&self.level),
            log_type: non_empty(&self.log_type),
            module: non_empty(&self.module),
            status: self.status,
        }
    }
}

/// An operation log entry as the API shows it.
#[derive(Debug)]
pub struct LogRecord {
    pub id: i32,
    pub trace_id: Option<String>,
    pub log_type: String,
    pub level: String,
    pub module: String,
    pub action: String,
    pub message: String,
    pub method: Option<String>,
    pub path: Option<String>,
    pub status: Option<i32>,
    pub duration_ms: Option<i32>,
    pub ip: Option<String>,
    pub user_agent: Option<String>,
    pub user_id: Option<i32>,
    pub operator: Option<String>,
    pub request_summary: Option<String>,
    pub response_summary: Option<String>,
    pub error_message: Option<String>,
    pub created_at: String,
    pub updated_at: String,
}


/// An operation log entry to record.
#[derive(Debug)]
pub struct OperationLogEntry {
    pub log_type: String,
    pub level: String,
    pub module: String,
    pub action: String,
    pub message: String,
    pub user_id: Option<i32>,
    pub operator: Option<String>,
    pub method: Option<String>,
    pub path: Option<String>,
    pub status: Option<i32>,
    pub error_message: Option<String>,
}

/// The entry an action of a user in `module` is logged with: an
/// "operation" entry, at level "error" when it carries an error message and
/// "info" otherwise, under the API path of the module when it has one.
pub fn operation_log(
    module: &str,
    path: Option<&str>,
    action: &str,
    message: String,
    user_id: i32,
    operator: Option<String>,
    status: Option<i32>,
    error_message: Option<String>,
) -> (e: OperationLogEntry)
    ensures
        e.log_type@ == "operation"@,
        e.level@ == if error_message is Some {
            "error"@
        } else {
            "info"@
        },
        e.module@ == module@,
        e.action@ == action@,
        e.message == message,
        e.user_id == Some(user_id),
        e.operator == operator,
        e.method is None,
        opt_view(e.path) == match path {
            Some(p) => Some(p@),
            None => None,
        },
        e.status == status,
        e.error_message == error_message,
{
    let level = if error_message.is_some() {
        String::from_str("error")
    } else {
        String::from_str("info")
    };
    OperationLogEntry {
        log_type: String::from_str("operation"),
        level,
        module: String::from_str(module),
        action: String::from_str(action),
        message,
        user_id: Some(user_id),
        operator,
        method: None,
        path: match path {
            Some(p) => Some(String::from_str(p)),
            None => None,
        },
        status,
        error_message,
    }
}

} // verus!
