use vstd::prelude::*;

use crate::download::{disposition_value, file_response_headers, FileDisposition, FileResponseHeaders};
use crate::error::{is_bad_request, is_error, ApiError, ApiResult, ErrorKind};
use crate::files::{sanitize_download_name, sanitized_download_name};
use crate::json::{json_shape, validate_json_object, JsonShape};
use crate::numbers::{i32_string, int_text};
use crate::pagination::{page, page_number, page_size, page_size_number};
use crate::text::{
    chars_of, is_blank, is_blank_seq, opt_view, push_char, str_eq, trim_optional,
    trim_optional_spec,
};

verus! {

#[derive(Debug)]
pub struct CommandTemplateQueryParams {
    pub page: Option<u64>,
    pub page_size: Option<u64>,
    pub keyword: Option<String>,
    pub enabled: Option<bool>,
}

#[derive(Debug)]
pub struct CommandRunQueryParams {
    pub page: Option<u64>,
    pub page_size: Option<u64>,
    pub template_id: Option<i32>,
    pub status: Option<String>,
    pub keyword: Option<String>,
}

#[derive(Debug)]
pub struct CommandWorkflowQueryParams {
    pub page: Option<u64>,
    pub page_size: Option<u64>,
    pub keyword: Option<String>,
    pub enabled: Option<bool>,
}

#[derive(Debug)]
pub struct CommandWorkflowRunQueryParams {
    pub page: Option<u64>,
    pub page_size: Option<u64>,
    pub workflow_id: Option<i32>,
    pub status: Option<String>,
    pub keyword: Option<String>,
}

impl CommandTemplateQueryParams {
    pub fn page(&self) -> (p: u64)
        ensures
            p == page_number(self.page),
    {
        page(self.page)
    }

    pub fn page_size(&self) -> (s: u64)
        ensures
            s == page_size_number(self.page_size),
    {
        page_size(self.page_size)
    }
}

impl CommandRunQueryParams {
    pub fn page(&self) -> (p: u64)
        ensures
            p == page_number(self.page),
    {
        page(self.page)
    }

    pub fn page_size(&self) -> (s: u64)
        ensures
            s == page_size_number(self.page_size),
    {
        page_size(self.page_size)
    }
}

impl CommandWorkflowQueryParams {
    pub fn page(&self) -> (p: u64)
        ensures
            p == page_number(self.page),
    {
        page(self.page)
    }

    pub fn page_size(&self) -> (s: u64)
        ensures
            s == page_size_number(self.page_size),
    {
        page_size(self.page_size)
    }
}

impl CommandWorkflowRunQueryParams {
    pub fn page(&self) -> (p: u64)
        ensures
            p == page_number(self.page),
    {
        page(self.page)
    }

    pub fn page_size(&self) -> (s: u64)
        ensures
            s == page_size_number(self.page_size),
    {
        page_size(self.page_size)
    }
}

#[derive(Debug)]
pub struct CommandRunLogQueryParams {
    pub after_seq: Option<i32>,
    pub limit: Option<u64>,
}

impl CommandRunLogQueryParams {
    /// How many log chunks one request reads: `limit.unwrap_or(500)`
    /// clamped to 1..=2000.
    pub fn log_limit(&self) -> (n: u64)
        ensures
            n == match self.limit {
                Some(l) => if l < 1 {
                    1
                } else if l > 2000 {
                    2000
                } else {
                    l
                },
                None => 500,
            },
    {
        match self.limit {
            Some(l) => if l < 1 {
                1
            } else if l > 2000 {
                2000
            } else {
                l
            },
            None => 500,
        }
    }
}

#[derive(Debug)]
pub struct CommandTemplateRecord {
    pub id: i32,
    pub name: String,
    pub code: String,
    pub description: Option<String>,
    pub working_directory: String,
    pub command: String,
    pub default_args: Option<String>,
    pub env_vars: Option<String>,
    pub setup_script: Option<String>,
    pub python_venv_path: Option<String>,
    pub timeout_seconds: Option<i32>,
    pub preview_path_template: Option<String>,
    pub enabled: bool,
    pub created_by: Option<i32>,
    pub updated_by: Option<i32>,
    pub created_at: String,
    pub updated_at: String,
}

#[derive(Debug)]
pub struct CommandRunRecord {
    pub id: i32,
    pub template_id: Option<i32>,
    pub name: String,
    pub working_directory: String,
    pub command_line: String,
    pub effective_script: String,
    pub status: String,
    pub exit_code: Option<i32>,
    pub started_at: Option<String>,
    pub finished_at: Option<String>,
    pub duration_ms: Option<i32>,
    pub triggered_by: String,
    pub created_by: Option<i32>,
    pub error_message: Option<String>,
    pub output_tail: Option<String>,
    pub preview_path_template: Option<String>,
    pub preview_path: Option<String>,
    pub created_at: String,
    pub updated_at: String,
}

#[derive(Debug)]
pub struct CommandRunLogTicketRecord {
    pub ticket: String,
    pub expires_at: String,
}

#[derive(Debug)]
pub struct CommandRunLogRecord {
    pub id: i32,
    pub run_id: i32,
    pub seq: i32,
    pub stream: String,
    pub chunk: String,
    pub created_at: String,
}

#[derive(Debug)]
pub struct CommandWorkflowStepRecord {
    pub id: i32,
    pub workflow_id: i32,
    pub template_id: i32,
    pub name: String,
    pub sort_order: i32,
    pub args: Option<String>,
    pub env_vars: Option<String>,
    pub working_directory: Option<String>,
    pub timeout_seconds: Option<i32>,
    pub enabled: bool,
    pub created_at: String,
    pub updated_at: String,
}

#[derive(Debug)]
pub struct CommandWorkflowRecord {
    pub id: i32,
    pub name: String,
    pub code: String,
    pub description: Option<String>,
    pub enabled: bool,
    pub created_by: Option<i32>,
    pub updated_by: Option<i32>,
    pub steps: Vec<CommandWorkflowStepRecord>,
    pub created_at: String,
    pub updated_at: String,
}

#[derive(Debug)]
pub struct CommandWorkflowRunStepRecord {
    pub id: i32,
    pub workflow_run_id: i32,
    pub workflow_step_id: Option<i32>,
    pub command_run_id: Option<i32>,
    pub step_name: String,
    pub sort_order: i32,
    pub status: String,
    pub resolved_args: Option<String>,
    pub started_at: Option<String>,
    pub finished_at: Option<String>,
    pub error_message: Option<String>,
    pub created_at: String,
    pub updated_at: String,
}

#[derive(Debug)]
pub struct CommandWorkflowRunRecord {
    pub id: i32,
    pub workflow_id: Option<i32>,
    pub name: String,
    pub status: String,
    pub started_at: Option<String>,
    pub finished_at: Option<String>,
    pub duration_ms: Option<i32>,
    pub created_by: Option<i32>,
    pub error_message: Option<String>,
    pub steps: Vec<CommandWorkflowRunStepRecord>,
    pub created_at: String,
    pub updated_at: String,
}

#[derive(Debug)]
pub struct SaveCommandTemplateParams {
    pub name: String,
    pub code: String,
    pub description: Option<String>,
    pub working_directory: String,
    pub command: String,
    pub default_args: Option<String>,
    pub env_vars: Option<String>,
    pub setup_script: Option<String>,
    pub python_venv_path: Option<String>,
    pub timeout_seconds: Option<i32>,
    pub preview_path_template: Option<String>,
    pub enabled: Option<bool>,
}

#[derive(Debug)]
pub struct RunCommandParams {
    pub name: Option<String>,
    pub working_directory: Option<String>,
    pub command_line: Option<String>,
    pub setup_script: Option<String>,
    pub python_venv_path: Option<String>,
    pub env_vars: Option<String>,
    pub timeout_seconds: Option<i32>,
    pub preview_path_template: Option<String>,
}

#[derive(Debug)]
pub struct SaveCommandWorkflowStepParams {
    pub id: Option<i32>,
    pub template_id: i32,
    pub name: String,
    pub sort_order: i32,
    pub args: Option<String>,
    pub env_vars: Option<String>,
    pub working_directory: Option<String>,
    pub timeout_seconds: Option<i32>,
    pub enabled: Option<bool>,
}

#[derive(Debug)]
pub struct SaveCommandWorkflowParams {
    pub name: String,
    pub code: String,
    pub description: Option<String>,
    pub enabled: Option<bool>,
    pub steps: Vec<SaveCommandWorkflowStepParams>,
}

#[derive(Debug)]
pub struct RunCommandWorkflowParams {
    pub name: Option<String>,
}

/// The result of an optional JSON-object check (see `validate_json_object`).
pub open spec fn json_object_ok(value: Option<String>) -> bool {
    match value {
        None => true,
        Some(raw) => is_blank_seq(raw@) || json_shape(raw@) == JsonShape::Object,
    }
}

/// The message an optional JSON-object field that fails its check gets.
pub open spec fn json_object_message(value: Option<String>, field: Seq<char>) -> Seq<char> {
    match value {
        Some(raw) => if json_shape(raw@) == JsonShape::Invalid {
            field + " must be JSON"@
        } else {
            field + " must be a JSON object"@
        },
        None => Seq::empty(),
    }
}

fn check_json_object(value: &Option<String>, field: &str) -> (r: ApiResult<()>)
    ensures
        r is Ok <==> json_object_ok(*value),
        r matches Err(e) ==> is_bad_request(e, json_object_message(*value, field@)),
{
    let raw = match value {
        Some(s) => Some(s.as_str()),
        None => None,
    };
    validate_json_object(raw, field)
}

/// Why a command template cannot be saved, if it cannot: its name, code,
/// working directory and command are required, its environment must be a
/// JSON object, and a timeout must be positive.
pub open spec fn template_problem(p: SaveCommandTemplateParams) -> Option<Seq<char>> {
    if is_blank_seq(p.name@) || is_blank_seq(p.code@) || is_blank_seq(p.working_directory@)
        || is_blank_seq(p.command@) {
        Some("name, code, working directory and command are required"@)
    } else if !json_object_ok(p.env_vars) {
        Some(json_object_message(p.env_vars, "env_vars"@))
    } else if match p.timeout_seconds {
        Some(t) => t <= 0,
        None => false,
    } {
        Some("timeout_seconds must be positive"@)
    } else {
        None
    }
}

/// Refuses a command template as `template_problem` says.
pub fn validate_template(params: &SaveCommandTemplateParams) -> (r: ApiResult<()>)
    ensures
        r is Ok <==> template_problem(*params) is None,
        r matches Err(e) ==> template_problem(*params) matches Some(m) && is_bad_request(e, m),
{
    if is_blank(params.name.as_str()) || is_blank(params.code.as_str()) || is_blank(
        params.working_directory.as_str(),
    ) || is_blank(params.command.as_str()) {
        return Err(ApiError::bad_request("name, code, working directory and command are required"));
    }
    match check_json_object(&params.env_vars, "env_vars") {
        Ok(()) => {},
        Err(e) => return Err(e),
    }
    match params.timeout_seconds {
        Some(t) => if t <= 0 {
            return Err(ApiError::bad_request("timeout_seconds must be positive"));
        },
        None => {},
    }
    Ok(())
}

/// The fields of a command template as saved.
#[derive(Debug)]
pub struct CommandTemplateFields {
    pub name: String,
    pub code: String,
    pub description: Option<String>,
    pub working_directory: String,
    pub command: String,
    pub default_args: Option<String>,
    pub env_vars: Option<String>,
    pub setup_script: Option<String>,
    pub python_venv_path: Option<String>,
    pub timeout_seconds: Option<i32>,
    pub preview_path_template: Option<String>,
    pub enabled: bool,
}

/// What a checked save request writes: the required texts as sent, the
/// optional ones trimmed (blank ones dropped), enabled unless said
/// otherwise.
pub fn template_fields(params: SaveCommandTemplateParams) -> (f: CommandTemplateFields)
    ensures
        f.name == params.name && f.code == params.code,
        f.working_directory == params.working_directory && f.command == params.command,
        opt_view(f.description) == trim_optional_spec(opt_view(params.description)),
        opt_view(f.default_args) == trim_optional_spec(opt_view(params.default_args)),
        opt_view(f.env_vars) == trim_optional_spec(opt_view(params.env_vars)),
        opt_view(f.setup_script) == trim_optional_spec(opt_view(params.setup_script)),
        opt_view(f.python_venv_path) == trim_optional_spec(opt_view(params.python_venv_path)),
        f.timeout_seconds == params.timeout_seconds,
        opt_view(f.preview_path_template) == trim_optional_spec(
            opt_view(params.preview_path_template),
        ),
        f.enabled == match params.enabled {
            Some(b) => b,
            None => true,
        },
{
    CommandTemplateFields {
        name: params.name,
        code: params.code,
        description: trim_optional(params.description),
        working_directory: params.working_directory,
        command: params.command,
        default_args: trim_optional(params.default_args),
        env_vars: trim_optional(params.env_vars),
        setup_script: trim_optional(params.setup_script),
        python_venv_path: trim_optional(params.python_venv_path),
        timeout_seconds: params.timeout_seconds,
        preview_path_template: trim_optional(params.preview_path_template),
        enabled: match params.enabled {
            Some(b) => b,
            None => true,
        },
    }
}

/// Whether a workflow step takes part: unless it says otherwise.
pub open spec fn step_enabled(step: SaveCommandWorkflowStepParams) -> bool {
    match step.enabled {
        Some(b) => b,
        None => true,
    }
}

/// The positions of the enabled steps, in order.
pub open spec fn enabled_step_positions(steps: Seq<SaveCommandWorkflowStepParams>) -> Seq<int>
    decreases steps.len(),
{
    if steps.len() == 0 {
        Seq::empty()
    } else if step_enabled(steps.last()) {
        enabled_step_positions(steps.drop_last()).push(steps.len() - 1)
    } else {
        enabled_step_positions(steps.drop_last())
    }
}

/// The enabled step positions name exactly the enabled steps.
pub proof fn lemma_enabled_step_positions(steps: Seq<SaveCommandWorkflowStepParams>)
    ensures
        forall|k: int|
            0 <= k < enabled_step_positions(steps).len() ==> 0 <= #[trigger] enabled_step_positions(
                steps,
            )[k] < steps.len() && step_enabled(steps[enabled_step_positions(steps)[k]]),
        forall|i: int|
            0 <= i < steps.len() && step_enabled(#[trigger] steps[i]) ==> enabled_step_positions(
                steps,
            ).contains(i),
    decreases steps.len(),
{
    if steps.len() > 0 {
        let rest = steps.drop_last();
        lemma_enabled_step_positions(rest);
        let p = enabled_step_positions(steps);
        let q = enabled_step_positions(rest);
        assert forall|k: int| 0 <= k < p.len() implies 0 <= #[trigger] p[k] < steps.len() && step_enabled(
            steps[p[k]],
        ) by {
            if k < q.len() {
                assert(p[k] == q[k]);
                assert(rest[q[k]] == steps[q[k]]);
            }
        }
        assert forall|i: int| 0 <= i < steps.len() && step_enabled(#[trigger] steps[i]) implies p.contains(
            i,
        ) by {
            if i < steps.len() - 1 {
                assert(rest[i] == steps[i]);
                let k = choose|k: int| 0 <= k < q.len() && q[k] == i;
                assert(p[k] == i);
            } else {
                assert(p[p.len() - 1] == i);
            }
        }
    }
}

/// Why a workflow cannot be saved as a whole, if it cannot: its name and
/// code are required and it needs an enabled step.
pub open spec fn workflow_header_problem(p: SaveCommandWorkflowParams) -> Option<Seq<char>> {
    if is_blank_seq(p.name@) || is_blank_seq(p.code@) {
        Some("name and code are required"@)
    } else if enabled_step_positions(p.steps@).len() == 0 {
        Some("workflow must have enabled steps"@)
    } else {
        None
    }
}

/// Checks a workflow as a whole and gives the positions of its enabled
/// steps, which are then checked one by one, each with its template looked
/// up, in this order.
pub fn check_workflow_header(params: &SaveCommandWorkflowParams) -> (r: ApiResult<Vec<usize>>)
    ensures
        match r {
            Ok(v) => workflow_header_problem(*params) is None && v@.len() == enabled_step_positions(
                params.steps@,
            ).len() && forall|k: int|
                0 <= k < v@.len() ==> (#[trigger] v@[k]) as int == enabled_step_positions(
                    params.steps@,
                )[k],
            Err(e) => workflow_header_problem(*params) matches Some(m) && is_bad_request(e, m),
        },
{
    if is_blank(params.name.as_str()) || is_blank(params.code.as_str()) {
        return Err(ApiError::bad_request("name and code are required"));
    }
    let mut positions: Vec<usize> = Vec::new();
    let mut i: usize = 0;
    while i < params.steps.len()
        invariant
            i <= params.steps@.len(),
            positions@.len() == enabled_step_positions(params.steps@.take(i as int)).len(),
            forall|k: int|
                0 <= k < positions@.len() ==> (#[trigger] positions@[k]) as int
                    == enabled_step_positions(params.steps@.take(i as int))[k],
        decreases params.steps.len() - i,
    {
        proof {
            assert(params.steps@.take(i + 1).drop_last() =~= params.steps@.take(i as int));
        }
        let enabled = match params.steps[i].enabled {
            Some(b) => b,
            None => true,
        };
        if enabled {
            positions.push(i);
        }
        i = i + 1;
    }
    proof {
        assert(params.steps@.take(params.steps@.len() as int) =~= params.steps@);
    }
    if positions.len() == 0 {
        return Err(ApiError::bad_request("workflow must have enabled steps"));
    }
    Ok(positions)
}

/// Why an enabled workflow step is refused, if it is: its name is required,
/// its sort order and any timeout must be positive, and its environment
/// must be a JSON object.
pub open spec fn workflow_step_problem(step: SaveCommandWorkflowStepParams) -> Option<Seq<char>> {
    if is_blank_seq(step.name@) {
        Some("step name is required"@)
    } else if step.sort_order <= 0 {
        Some("step sort order must be positive"@)
    } else if match step.timeout_seconds {
        Some(t) => t <= 0,
        None => false,
    } {
        Some("step timeout_seconds must be positive"@)
    } else if !json_object_ok(step.env_vars) {
        Some(json_object_message(step.env_vars, "env_vars"@))
    } else {
        None
    }
}

/// Refuses a workflow step as `workflow_step_problem` says.
pub fn check_workflow_step(step: &SaveCommandWorkflowStepParams) -> (r: ApiResult<()>)
    ensures
        r is Ok <==> workflow_step_problem(*step) is None,
        r matches Err(e) ==> workflow_step_problem(*step) matches Some(m) && is_bad_request(e, m),
{
    if is_blank(step.name.as_str()) {
        return Err(ApiError::bad_request("step name is required"));
    }
    if step.sort_order <= 0 {
        return Err(ApiError::bad_request("step sort order must be positive"));
    }
    match step.timeout_seconds {
        Some(t) => if t <= 0 {
            return Err(ApiError::bad_request("step timeout_seconds must be positive"));
        },
        None => {},
    }
    check_json_object(&step.env_vars, "env_vars")
}

/// A workflow step as saved.
#[derive(Debug)]
pub struct NewWorkflowStep {
    pub workflow_id: i32,
    pub template_id: i32,
    pub name: String,
    pub sort_order: i32,
    pub args: Option<String>,
    pub env_vars: Option<String>,
    pub working_directory: Option<String>,
    pub timeout_seconds: Option<i32>,
    pub enabled: bool,
}

/// The sort order a saved step gets: its own when positive, else its
/// position counted from 1 (at most `i32::MAX`).
pub open spec fn saved_sort_order(sort_order: i32, index: int) -> i32 {
    if sort_order > 0 {
        sort_order
    } else if index + 1 <= i32::MAX {
        (index + 1) as i32
    } else {
        i32::MAX
    }
}

/// Law: a step saved with a positive sort order keeps exactly that order,
/// so steps run in the order the user gave them; only a step without one
/// (zero or negative) is placed by its position, counted from 1. Every saved
/// order is positive.
pub proof fn law_sent_sort_order_is_kept(sort_order: i32, index: int)
    requires
        0 <= index,
    ensures
        sort_order > 0 ==> saved_sort_order(sort_order, index) == sort_order,
        sort_order <= 0 && index + 1 <= i32::MAX ==> saved_sort_order(sort_order, index) == index + 1,
        saved_sort_order(sort_order, index) > 0,
{
}

/// The rows the steps of workflow `workflow_id` are saved as, in order
/// (disabled steps included).
pub fn workflow_step_rows(workflow_id: i32, steps: Vec<SaveCommandWorkflowStepParams>) -> (rows: Vec<
    NewWorkflowStep,
>)
    ensures
        rows@.len() == steps@.len(),
        forall|i: int|
            0 <= i < steps@.len() ==> {
                let s = #[trigger] steps@[i];
                let r = rows@[i];
                &&& r.workflow_id == workflow_id
                &&& r.template_id == s.template_id
                &&& r.name == s.name
                &&& r.sort_order == saved_sort_order(s.sort_order, i)
                &&& opt_view(r.args) == trim_optional_spec(opt_view(s.args))
                &&& opt_view(r.env_vars) == trim_optional_spec(opt_view(s.env_vars))
                &&& opt_view(r.working_directory) == trim_optional_spec(opt_view(s.working_directory))
                &&& r.timeout_seconds == s.timeout_seconds
                &&& r.enabled == step_enabled(s)
            },
        forall|i: int|
            0 <= i < steps@.len() && (#[trigger] steps@[i]).sort_order > 0 ==> rows@[i].sort_order
                == steps@[i].sort_order,
        forall|i: int|
            0 <= i < steps@.len() && (#[trigger] steps@[i]).sort_order <= 0 && i + 1 <= i32::MAX
                ==> rows@[i].sort_order == i + 1,
        forall|i: int| 0 <= i < steps@.len() ==> (#[trigger] rows@[i]).sort_order > 0,
{
    let ghost all = steps@;
    assert(all.len() == steps.len());
    let mut pending = steps;
    let mut rows: Vec<NewWorkflowStep> = Vec::new();
    let mut index: usize = 0;
    while pending.len() > 0
        invariant
            index + pending@.len() == all.len(),
            all.len() <= usize::MAX,
            pending@ == all.skip(index as int),
            rows@.len() == index,
            forall|i: int|
                0 <= i < index ==> {
                    let s = #[trigger] all[i];
                    let r = rows@[i];
                    &&& r.workflow_id == workflow_id
                    &&& r.template_id == s.template_id
                    &&& r.name == s.name
                    &&& r.sort_order == saved_sort_order(s.sort_order, i)
                    &&& opt_view(r.args) == trim_optional_spec(opt_view(s.args))
                    &&& opt_view(r.env_vars) == trim_optional_spec(opt_view(s.env_vars))
                    &&& opt_view(r.working_directory) == trim_optional_spec(
                        opt_view(s.working_directory),
                    )
                    &&& r.timeout_seconds == s.timeout_seconds
                    &&& r.enabled == step_enabled(s)
                },
        decreases pending.len(),
    {
        let step = pending.remove(0);
        proof {
            assert(step == all[index as int]);
            assert(pending@ =~= all.skip(index + 1));
        }
        let sort_order = if step.sort_order > 0 {
            step.sort_order
        } else if index < 2147483647usize {
            (index + 1) as i32
        } else {
            2147483647i32
        };
        rows.push(
            NewWorkflowStep {
                workflow_id,
                template_id: step.template_id,
                name: step.name,
                sort_order,
                args: trim_optional(step.args),
                env_vars: trim_optional(step.env_vars),
                working_directory: trim_optional(step.working_directory),
                timeout_seconds: step.timeout_seconds,
                enabled: match step.enabled {
                    Some(b) => b,
                    None => true,
                },
            },
        );
        index = index + 1;
    }
    proof {
        assert forall|i: int| 0 <= i < rows@.len() implies (#[trigger] rows@[i]).sort_order > 0 by {
            assert(all[i] == all[i]);
            law_sent_sort_order_is_kept(all[i].sort_order, i);
        }
    }
    rows
}

/// The command a template runs by default: its command, followed by its
/// default arguments when they are not blank.
pub open spec fn template_command_line(command: Seq<char>, default_args: Option<Seq<char>>) -> Seq<
    char,
> {
    match default_args {
        Some(a) => if is_blank_seq(a) {
            command
        } else {
            command + " "@ + a
        },
        None => command,
    }
}

/// The default command line of a template (see `template_command_line`).
pub fn build_template_command_line(command: &str, default_args: Option<&str>) -> (r: String)
    ensures
        r@ == template_command_line(
            command@,
            match default_args {
                Some(a) => Some(a@),
                None => None,
            },
        ),
{
    match default_args {
        Some(a) => if is_blank(a) {
            String::from_str(command)
        } else {
            String::from_str(command).concat(" ").concat(a)
        },
        None => String::from_str(command),
    }
}

/// A stored command template, as a run reads it.
#[derive(Debug)]
pub struct CommandTemplate {
    pub id: i32,
    pub name: String,
    pub working_directory: String,
    pub command: String,
    pub default_args: Option<String>,
    pub env_vars: Option<String>,
    pub setup_script: Option<String>,
    pub python_venv_path: Option<String>,
    pub timeout_seconds: Option<i32>,
    pub preview_path_template: Option<String>,
    pub enabled: bool,
}

/// What the command runner is asked to run.
#[derive(Debug)]
pub struct CommandRunRequest {
    pub template_id: Option<i32>,
    pub name: String,
    pub working_directory: String,
    pub command_line: String,
    pub setup_script: Option<String>,
    pub python_venv_path: Option<String>,
    pub env_vars: Option<String>,
    pub timeout_seconds: Option<i32>,
    pub preview_path_template: Option<String>,
    pub triggered_by: String,
    pub created_by: Option<i32>,
}

/// `given.or(fallback)`.
pub open spec fn or_else<A>(given: Option<A>, fallback: Option<A>) -> Option<A> {
    match given {
        Some(v) => Some(v),
        None => fallback,
    }
}

/// Law: a value sent with a run is the one the run uses, whatever the
/// template holds; the template's value is used only when none is sent.
pub proof fn law_sent_value_wins<A>(sent: Option<A>, from_template: Option<A>)
    ensures
        sent matches Some(v) ==> or_else(sent, from_template) == Some(v),
        sent is None ==> or_else(sent, from_template) == from_template,
{
}

/// A manual run of `template`: refused when the template is disabled
/// ("command template is disabled"); every value the request gives wins
/// over the template's, and the command line defaults to the template's
/// command with its default arguments.
pub fn template_run_request(template: CommandTemplate, params: RunCommandParams, actor_id: i32) -> (r:
    ApiResult<CommandRunRequest>)
    ensures
        match r {
            Ok(q) => {
                &&& template.enabled
                &&& q.template_id == Some(template.id)
                &&& q.name == match params.name {
                    Some(n) => n,
                    None => template.name,
                }
                &&& q.working_directory == match params.working_directory {
                    Some(w) => w,
                    None => template.working_directory,
                }
                &&& q.command_line@ == match params.command_line {
                    Some(c) => c@,
                    None => template_command_line(
                        template.command@,
                        opt_view(template.default_args),
                    ),
                }
                &&& q.setup_script == or_else(params.setup_script, template.setup_script)
                &&& q.python_venv_path == or_else(params.python_venv_path, template.python_venv_path)
                &&& q.env_vars == or_else(params.env_vars, template.env_vars)
                &&& q.timeout_seconds == or_else(params.timeout_seconds, template.timeout_seconds)
                &&& q.preview_path_template == or_else(
                    params.preview_path_template,
                    template.preview_path_template,
                )
                &&& q.triggered_by@ == "manual"@
                &&& q.created_by == Some(actor_id)
            },
            Err(e) => !template.enabled && is_bad_request(e, "command template is disabled"@),
        },
        r is Ok <==> template.enabled,
        r matches Ok(q) ==> {
            &&& (params.setup_script matches Some(v) ==> q.setup_script == Some(v))
            &&& (params.setup_script is None ==> q.setup_script == template.setup_script)
            &&& (params.python_venv_path matches Some(v) ==> q.python_venv_path == Some(v))
            &&& (params.python_venv_path is None ==> q.python_venv_path == template.python_venv_path)
            &&& (params.env_vars matches Some(v) ==> q.env_vars == Some(v))
            &&& (params.env_vars is None ==> q.env_vars == template.env_vars)
            &&& (params.timeout_seconds matches Some(v) ==> q.timeout_seconds == Some(v))
            &&& (params.timeout_seconds is None ==> q.timeout_seconds == template.timeout_seconds)
            &&& (params.preview_path_template matches Some(v) ==> q.preview_path_template == Some(v))
            &&& (params.preview_path_template is None ==> q.preview_path_template
                == template.preview_path_template)
            &&& (params.name matches Some(n) ==> q.name == n)
            &&& (params.working_directory matches Some(w) ==> q.working_directory == w)
            &&& (params.command_line matches Some(c) ==> q.command_line == c)
        },
{
    proof {
        law_sent_value_wins(params.setup_script, template.setup_script);
        law_sent_value_wins(params.python_venv_path, template.python_venv_path);
        law_sent_value_wins(params.env_vars, template.env_vars);
        law_sent_value_wins(params.timeout_seconds, template.timeout_seconds);
        law_sent_value_wins(params.preview_path_template, template.preview_path_template);
    }
    if !template.enabled {
        return Err(ApiError::bad_request("command template is disabled"));
    }
    let command_line = match params.command_line {
        Some(c) => c,
        None => build_template_command_line(
            template.command.as_str(),
            match &template.default_args {
                Some(a) => Some(a.as_str()),
                None => None,
            },
        ),
    };
    Ok(
        CommandRunRequest {
            template_id: Some(template.id),
            name: match params.name {
                Some(n) => n,
                None => template.name,
            },
            working_directory: match params.working_directory {
                Some(w) => w,
                None => template.working_directory,
            },
            command_line,
            setup_script: match params.setup_script {
                Some(v) => Some(v),
                None => template.setup_script,
            },
            python_venv_path: match params.python_venv_path {
                Some(v) => Some(v),
                None => template.python_venv_path,
            },
            env_vars: match params.env_vars {
                Some(v) => Some(v),
                None => template.env_vars,
            },
            timeout_seconds: match params.timeout_seconds {
                Some(v) => Some(v),
                None => template.timeout_seconds,
            },
            preview_path_template: match params.preview_path_template {
                Some(v) => Some(v),
                None => template.preview_path_template,
            },
            triggered_by: String::from_str("manual"),
            created_by: Some(actor_id),
        },
    )
}

/// Holds when an optional text is given and not blank.
pub open spec fn present(value: Option<String>) -> bool {
    match value {
        Some(v) => !is_blank_seq(v@),
        None => false,
    }
}

/// A manual run of a command typed by hand: its command line ("command line
/// is required") and working directory ("working directory is required")
/// must be given and not blank; the name defaults to "临时命令".
pub fn ad_hoc_run_request(params: RunCommandParams, actor_id: i32) -> (r: ApiResult<CommandRunRequest>)
    ensures
        match r {
            Ok(q) => {
                &&& present(params.command_line) && present(params.working_directory)
                &&& Some(q.command_line) == params.command_line
                &&& Some(q.working_directory) == params.working_directory
                &&& q.template_id is None
                &&& q.name@ == match params.name {
                    Some(n) => n@,
                    None => "临时命令"@,
                }
                &&& q.setup_script == params.setup_script
                &&& q.python_venv_path == params.python_venv_path
                &&& q.env_vars == params.env_vars
                &&& q.timeout_seconds == params.timeout_seconds
                &&& q.preview_path_template == params.preview_path_template
                &&& q.triggered_by@ == "manual"@
                &&& q.created_by == Some(actor_id)
            },
            Err(e) => if !present(params.command_line) {
                is_bad_request(e, "command line is required"@)
            } else {
                !present(params.working_directory) && is_bad_request(
                    e,
                    "working directory is required"@,
                )
            },
        },
{
    let command_line = match params.command_line {
        Some(c) => if is_blank(c.as_str()) {
            return Err(ApiError::bad_request("command line is required"));
        } else {
            c
        },
        None => return Err(ApiError::bad_request("command line is required")),
    };
    let working_directory = match params.working_directory {
        Some(w) => if is_blank(w.as_str()) {
            return Err(ApiError::bad_request("working directory is required"));
        } else {
            w
        },
        None => return Err(ApiError::bad_request("working directory is required")),
    };
    Ok(
        CommandRunRequest {
            template_id: None,
            name: match params.name {
                Some(n) => n,
                None => String::from_str("临时命令"),
            },
            working_directory,
            command_line,
            setup_script: params.setup_script,
            python_venv_path: params.python_venv_path,
            env_vars: params.env_vars,
            timeout_seconds: params.timeout_seconds,
            preview_path_template: params.preview_path_template,
            triggered_by: String::from_str("manual"),
            created_by: Some(actor_id),
        },
    )
}

/// The name a workflow run gets: the one given, else the workflow's;
/// a disabled workflow does not run ("command workflow is disabled").
pub fn workflow_run_name(enabled: bool, name: Option<String>, workflow_name: String) -> (r: ApiResult<
    String,
>)
    ensures
        match r {
            Ok(n) => enabled && n == match name {
                Some(v) => v,
                None => workflow_name,
            },
            Err(e) => !enabled && is_bad_request(e, "command workflow is disabled"@),
        },
{
    if !enabled {
        return Err(ApiError::bad_request("command workflow is disabled"));
    }
    match name {
        Some(v) => Ok(v),
        None => Ok(workflow_name),
    }
}

/// The path of a run's preview artifact; a run without one (or with a
/// blank one) has none to show ("command run has no preview artifact").
pub fn preview_path_of(preview_path: Option<&str>) -> (r: ApiResult<String>)
    ensures
        match r {
            Ok(p) => (match preview_path {
                Some(q) => q@ == p@,
                None => false,
            }) && !is_blank_seq(p@),
            Err(e) => (match preview_path {
                Some(p) => is_blank_seq(p@),
                None => true,
            }) && is_bad_request(e, "command run has no preview artifact"@),
        },
{
    match preview_path {
        Some(p) => if is_blank(p) {
            Err(ApiError::bad_request("command run has no preview artifact"))
        } else {
            Ok(String::from_str(p))
        },
        None => Err(ApiError::bad_request("command run has no preview artifact")),
    }
}

/// Reading a path for its file name: the last complete component that is
/// neither empty nor ".", and the component being read.
pub open spec fn name_scan(s: Seq<char>) -> (Option<Seq<char>>, Seq<char>)
    decreases s.len(),
{
    if s.len() == 0 {
        (None, Seq::empty())
    } else {
        let (last, cur) = name_scan(s.drop_last());
        if s.last() == '/' {
            (
                if cur.len() > 0 && cur != "."@ {
                    Some(cur)
                } else {
                    last
                },
                Seq::empty(),
            )
        } else {
            (last, cur.push(s.last()))
        }
    }
}

/// `Path::file_name` on a Unix path: its last component that is neither
/// empty nor ".", unless that is "..".
pub open spec fn path_file_name(s: Seq<char>) -> Option<Seq<char>> {
    let (last, cur) = name_scan(s);
    let comp = if cur.len() > 0 && cur != "."@ {
        Some(cur)
    } else {
        last
    };
    match comp {
        Some(c) => if c == ".."@ {
            None
        } else {
            Some(c)
        },
        None => None,
    }
}

/// The file name of a path, as `Path::file_name` gives it (see `path_file_name`).
pub fn file_name_of_path(path: &str) -> (r: Option<String>)
    ensures
        opt_view(r) == path_file_name(path@),
{
    let v = chars_of(path);
    let mut last: Option<String> = None;
    let mut cur = String::new();
    let mut i: usize = 0;
    while i < v.len()
        invariant
            i <= v@.len(),
            v@ == path@,
            (opt_view(last), cur@) == name_scan(path@.take(i as int)),
        decreases v.len() - i,
    {
        proof {
            assert(path@.take(i + 1).drop_last() =~= path@.take(i as int));
        }
        if v[i] == '/' {
            if !cur.as_str().is_empty() && !str_eq(cur.as_str(), ".") {
                last = Some(cur);
            }
            cur = String::new();
        } else {
            push_char(&mut cur, v[i]);
        }
        i = i + 1;
    }
    proof {
        assert(path@.take(v@.len() as int) =~= path@);
    }
    let comp = if !cur.as_str().is_empty() && !str_eq(cur.as_str(), ".") {
        Some(cur)
    } else {
        last
    };
    match comp {
        Some(c) => if str_eq(c.as_str(), "..") {
            None
        } else {
            Some(c)
        },
        None => None,
    }
}

/// The name a preview artifact is shown under: the file name of its path,
/// else "command-run-<id>".
pub open spec fn preview_file_name(path: Seq<char>, run_id: i32) -> Seq<char> {
    match path_file_name(path) {
        Some(n) => n,
        None => "command-run-"@ + int_text(run_id as int),
    }
}

/// The MIME type that `mime_guess` gives first for the extension of `path`,
/// if it knows one.
pub uninterp spec fn guessed_mime(path: Seq<char>) -> Option<Seq<char>>;

/// `mime_guess::from_path(path).first_raw()`. Trusted: the result is
/// `guessed_mime` of the path; the crate's table is not restated.
#[verifier::external_body]
fn guess_mime(path: &str) -> (r: Option<String>)
    ensures
        opt_view(r) == guessed_mime(path@),
{
    match mime_guess::from_path(path).first_raw() {
        Some(m) => Some(m.to_string()),
        None => None,
    }
}

/// The headers a preview artifact is sent with: its guessed MIME type, shown
/// inline under its sanitized name, not cached and not sniffed.
pub fn artifact_headers(path: &str, run_id: i32) -> (h: FileResponseHeaders)
    ensures
        h.content_type@ == match guessed_mime(path@) {
            Some(m) => m,
            None => "application/octet-stream"@,
        },
        h.content_disposition@ == disposition_value(
            FileDisposition::Inline,
            sanitized_download_name(preview_file_name(path@, run_id)),
        ),
        opt_view(h.cache_control) == Some("private, no-store"@),
        h.nosniff,
{
    let name = match file_name_of_path(path) {
        Some(n) => n,
        None => String::from_str("command-run-").concat(i32_string(run_id).as_str()),
    };
    let safe = sanitize_download_name(name.as_str());
    let mime = guess_mime(path);
    let mime_ref = match &mime {
        Some(m) => Some(m.as_str()),
        None => None,
    };
    file_response_headers(FileDisposition::Inline, mime_ref, safe.as_str(), true)
}

} // verus!
