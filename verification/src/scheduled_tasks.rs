use vstd::prelude::*;

use crate::datetime::{parse_rfc3339, rfc3339_instant, Timestamp};
use crate::error::{is_bad_request, ApiError, ApiResult};
use crate::numbers::{decimal_text, int_text};
use crate::pagination::{page, page_number, page_size, page_size_number};
use crate::text::{is_blank, is_blank_seq, opt_view, str_eq};

verus! {

#[derive(Debug)]
pub struct ScheduledTaskQueryParams {
    pub page: Option<u64>,
    pub page_size: Option<u64>,
    pub keyword: Option<String>,
    pub task_type: Option<String>,
    pub status: Option<String>,
    pub enabled: Option<bool>,
}

impl ScheduledTaskQueryParams {
    pub fn page(&self) -> (p: u64)
        ensures
            p == page_number(self.page),
    {
        page(self.page)
    }

    pub fn page_size(&self) -> (s: u64)
        ensures
            s == page_size_number(self.page_size),
    {
        page_size(self.page_size)
    }
}

#[derive(Debug)]
pub struct TaskRunQueryParams {
    pub page: Option<u64>,
    pub page_size: Option<u64>,
    pub task_id: Option<i32>,
    pub status: Option<String>,
}

impl TaskRunQueryParams {
    pub fn page(&self) -> (p: u64)
        ensures
            p == page_number(self.page),
    {
        page(self.page)
    }

    pub fn page_size(&self) -> (s: u64)
        ensures
            s == page_size_number(self.page_size),
    {
        page_size(self.page_size)
    }
}

#[derive(Debug)]
pub struct ScheduledTaskRecord {
    pub id: i32,
    pub name: String,
    pub code: String,
    pub task_type: String,
    pub cron_expr: String,
    pub payload: Option<String>,
    pub enabled: bool,
    pub status: String,
    pub last_run_at: Option<String>,
    pub next_run_at: Option<String>,
    pub created_by: Option<i32>,
    pub updated_by: Option<i32>,
    pub created_at: String,
    pub updated_at: String,
}

#[derive(Debug)]
pub struct TaskRunRecord {
    pub id: i32,
    pub task_id: i32,
    pub code: String,
    pub status: String,
    pub started_at: String,
    pub finished_at: Option<String>,
    pub duration_ms: Option<i32>,
    pub output: Option<String>,
    pub error_message: Option<String>,
    pub triggered_by: String,
    pub created_at: String,
    pub updated_at: String,
}

#[derive(Debug)]
pub struct SaveScheduledTaskParams {
    pub name: String,
    pub code: String,
    pub task_type: String,
    pub cron_expr: String,
    pub payload: Option<String>,
    pub enabled: Option<bool>,
    pub status: Option<String>,
    pub next_run_at: Option<String>,
}

/// The kinds of work a scheduled task can do.
pub open spec fn supported_task_type(t: Seq<char>) -> bool {
    t == "database_backup"@ || t == "webhook_notify"@ || t == "cleanup_logs"@
}

/// Why a scheduled task is refused, if it is.
pub open spec fn task_problem(p: SaveScheduledTaskParams) -> Option<Seq<char>> {
    if is_blank_seq(p.name@) || is_blank_seq(p.code@) || is_blank_seq(p.cron_expr@) {
        Some("task name, code and cron are required"@)
    } else if !supported_task_type(p.task_type@) {
        Some("unsupported task type"@)
    } else {
        None
    }
}

/// Refuses a scheduled task as `task_problem` says.
pub fn validate_task(params: &SaveScheduledTaskParams) -> (r: ApiResult<()>)
    ensures
        r is Ok <==> task_problem(*params) is None,
        r matches Err(e) ==> task_problem(*params) matches Some(m) && is_bad_request(e, m),
{
    if is_blank(params.name.as_str()) || is_blank(params.code.as_str()) || is_blank(
        params.cron_expr.as_str(),
    ) {
        return Err(ApiError::bad_request("task name, code and cron are required"));
    }
    if str_eq(params.task_type.as_str(), "database_backup") || str_eq(
        params.task_type.as_str(),
        "webhook_notify",
    ) || str_eq(params.task_type.as_str(), "cleanup_logs") {
        Ok(())
    } else {
        Err(ApiError::bad_request("unsupported task type"))
    }
}

/// A scheduled task as saved.
#[derive(Debug)]
pub struct TaskFields {
    pub name: String,
    pub code: String,
    pub task_type: String,
    pub cron_expr: String,
    pub payload: Option<String>,
    pub enabled: bool,
    pub status: String,
    pub next_run_at: Option<Timestamp>,
}

/// What a checked task request writes: enabled unless said, status "idle"
/// unless given, and the next run time, which must be RFC 3339 when given
/// and not empty ("time must be RFC3339").
pub fn task_fields(params: SaveScheduledTaskParams) -> (r: ApiResult<TaskFields>)
    ensures
        match r {
            Ok(f) => {
                &&& f.name == params.name && f.code == params.code
                &&& f.task_type == params.task_type && f.cron_expr == params.cron_expr
                &&& f.payload == params.payload
                &&& f.enabled == match params.enabled {
                    Some(b) => b,
                    None => true,
                }
                &&& f.status@ == match params.status {
                    Some(s) => s@,
                    None => "idle"@,
                }
                &&& f.next_run_at == match params.next_run_at {
                    Some(t) => if t@.len() == 0 {
                        None
                    } else {
                        rfc3339_instant(t@)
                    },
                    None => None,
                }
            },
            Err(e) => (match params.next_run_at {
                Some(t) => t@.len() > 0 && rfc3339_instant(t@) is None,
                None => false,
            }) && is_bad_request(e, "time must be RFC3339"@),
        },
{
    let next_run_at = match &params.next_run_at {
        Some(t) => if t.as_str().is_empty() {
            None
        } else {
            match parse_rfc3339(t.as_str()) {
                Some(ts) => Some(ts),
                None => return Err(ApiError::bad_request("time must be RFC3339")),
            }
        },
        None => None,
    };
    Ok(
        TaskFields {
            name: params.name,
            code: params.code,
            task_type: params.task_type,
            cron_expr: params.cron_expr,
            payload: params.payload,
            enabled: match params.enabled {
                Some(b) => b,
                None => true,
            },
            status: match params.status {
                Some(s) => s,
                None => String::from_str("idle"),
            },
            next_run_at,
        },
    )
}

/// What running a task of a given type does.
#[derive(Debug)]
pub enum TaskAction {
    /// The task is only acknowledged, with this output.
    Acknowledge(String),
    /// A database backup is made and delivered.
    DatabaseBackup,
    /// The type is not supported: the run fails.
    Unsupported,
}

/// What running a task of type `task_type` does.
pub fn task_action(task_type: &str) -> (a: TaskAction)
    ensures
        task_type@ == "cleanup_logs"@ ==> (a matches TaskAction::Acknowledge(m) && m@
            == "cleanup_logs task acknowledged"@),
        task_type@ == "webhook_notify"@ ==> (a matches TaskAction::Acknowledge(m) && m@
            == "webhook_notify task acknowledged"@),
        task_type@ == "database_backup"@ ==> a is DatabaseBackup,
        !supported_task_type(task_type@) ==> a is Unsupported,
{
    proof {
        reveal_strlit("cleanup_logs");
        reveal_strlit("webhook_notify");
        reveal_strlit("database_backup");
        assert("cleanup_logs"@.len() != "webhook_notify"@.len());
        assert("cleanup_logs"@[0] != "database_backup"@[0]);
        assert("webhook_notify"@.len() != "database_backup"@.len());
    }
    if str_eq(task_type, "cleanup_logs") {
        TaskAction::Acknowledge(String::from_str("cleanup_logs task acknowledged"))
    } else if str_eq(task_type, "webhook_notify") {
        TaskAction::Acknowledge(String::from_str("webhook_notify task acknowledged"))
    } else if str_eq(task_type, "database_backup") {
        TaskAction::DatabaseBackup
    } else {
        TaskAction::Unsupported
    }
}

/// The output of a finished backup task.
pub open spec fn backup_output(id: i32, status: Seq<char>, delivery_status: Option<Seq<char>>) -> Seq<
    char,
> {
    "database backup "@ + int_text(id as int) + " finished with "@ + status + ", delivery "@
        + match delivery_status {
        Some(d) => d,
        None => "-"@,
    }
}

/// The output of a finished backup task (see `backup_output`).
pub fn backup_task_output(id: i32, status: &str, delivery_status: Option<&str>) -> (r: String)
    ensures
        r@ == backup_output(
            id,
            status@,
            match delivery_status {
                Some(d) => Some(d@),
                None => None,
            },
        ),
{
    let delivery = match delivery_status {
        Some(d) => d,
        None => "-",
    };
    String::from_str("database backup ").concat(crate::numbers::i32_string(id).as_str()).concat(
        " finished with ",
    ).concat(status).concat(", delivery ").concat(delivery)
}

/// How a task run is recorded: "success" with its output, or "failed" with
/// its error.
#[derive(Debug)]
pub struct RunOutcome {
    pub status: String,
    pub output: Option<String>,
    pub error_message: Option<String>,
}

/// How a finished run is recorded.
pub fn run_outcome(result: Result<String, String>) -> (o: RunOutcome)
    ensures
        match result {
            Ok(out) => o.status@ == "success"@ && o.output == Some(out) && o.error_message is None,
            Err(err) => o.status@ == "failed"@ && o.output is None && o.error_message == Some(err),
        },
{
    match result {
        Ok(out) => RunOutcome { status: String::from_str("success"), output: Some(out), error_message: None },
        Err(err) => RunOutcome {
            status: String::from_str("failed"),
            output: None,
            error_message: Some(err),
        },
    }
}

/// The recorded duration of a run: its milliseconds, or 0 when they do not
/// fit an `i32`.
pub fn duration_ms_of(millis: i64) -> (r: i32)
    ensures
        r == if i32::MIN <= millis <= i32::MAX {
            millis as i32
        } else {
            0
        },
{
    if -2147483648i64 <= millis && millis <= 2147483647i64 {
        millis as i32
    } else {
        0
    }
}

} // verus!
