use vstd::prelude::*;

use crate::error::{is_bad_request, ApiError, ApiResult};
use crate::json::{json_shape, validate_json, JsonShape};
use crate::pagination::{page, page_number, page_size, page_size_number};
use crate::text::{is_blank, is_blank_seq, require_non_empty};

verus! {

#[derive(Debug)]
pub struct EmailTemplateQueryParams {
    pub page: Option<u64>,
    pub page_size: Option<u64>,
    pub keyword: Option<String>,
    pub template_type: Option<String>,
    pub enabled: Option<bool>,
}

impl EmailTemplateQueryParams {
    pub fn page(&self) -> (p: u64)
        ensures
            p == page_number(self.page),
    {
        page(self.page)
    }

    pub fn page_size(&self) -> (s: u64)
        ensures
            s == page_size_number(self.page_size),
    {
        page_size(self.page_size)
    }
}

#[derive(Debug)]
pub struct EmailTemplateRecord {
    pub id: i32,
    pub code: String,
    pub name: String,
    pub template_type: String,
    pub subject: String,
    pub html_body: String,
    pub text_body: String,
    pub variables: String,
    pub enabled: bool,
    pub is_builtin: bool,
    pub description: Option<String>,
    pub created_by: Option<i32>,
    pub updated_by: Option<i32>,
    pub created_at: String,
    pub updated_at: String,
}

#[derive(Debug)]
pub struct SaveEmailTemplateParams {
    pub code: String,
    pub name: String,
    pub template_type: String,
    pub subject: String,
    pub html_body: String,
    pub text_body: String,
    pub variables: String,
    pub enabled: Option<bool>,
    pub is_builtin: Option<bool>,
    pub description: Option<String>,
}

/// The values a template is rendered with.
#[derive(Debug)]
pub struct PreviewEmailTemplateParams {
    pub locals: serde_json::Value,
}

#[derive(Debug)]
pub struct TestSendEmailTemplateParams {
    pub to: String,
    pub locals: serde_json::Value,
}

/// Why a template is refused, if it is: each of its texts is required, in
/// this order, and its variables must be JSON.
pub open spec fn template_problem(p: SaveEmailTemplateParams) -> Option<Seq<char>> {
    if is_blank_seq(p.code@) {
        Some("code"@ + " is required"@)
    } else if is_blank_seq(p.name@) {
        Some("name"@ + " is required"@)
    } else if is_blank_seq(p.template_type@) {
        Some("template_type"@ + " is required"@)
    } else if is_blank_seq(p.subject@) {
        Some("subject"@ + " is required"@)
    } else if is_blank_seq(p.html_body@) {
        Some("html_body"@ + " is required"@)
    } else if is_blank_seq(p.text_body@) {
        Some("text_body"@ + " is required"@)
    } else if json_shape(p.variables@) == JsonShape::Invalid {
        Some("variables"@ + " must be valid json"@)
    } else {
        None
    }
}

/// Refuses an e-mail template as `template_problem` says.
pub fn validate_template(params: &SaveEmailTemplateParams) -> (r: ApiResult<()>)
    ensures
        r is Ok <==> template_problem(*params) is None,
        r matches Err(e) ==> template_problem(*params) matches Some(m) && is_bad_request(e, m),
{
    match require_non_empty("code", params.code.as_str()) {
        Ok(()) => {},
        Err(e) => return Err(e),
    }
    match require_non_empty("name", params.name.as_str()) {
        Ok(()) => {},
        Err(e) => return Err(e),
    }
    match require_non_empty("template_type", params.template_type.as_str()) {
        Ok(()) => {},
        Err(e) => return Err(e),
    }
    match require_non_empty("subject", params.subject.as_str()) {
        Ok(()) => {},
        Err(e) => return Err(e),
    }
    match require_non_empty("html_body", params.html_body.as_str()) {
        Ok(()) => {},
        Err(e) => return Err(e),
    }
    match require_non_empty("text_body", params.text_body.as_str()) {
        Ok(()) => {},
        Err(e) => return Err(e),
    }
    validate_json("variables", params.variables.as_str())
}

/// A test e-mail needs a recipient.
pub fn check_recipient(to: &str) -> (r: ApiResult<()>)
    ensures
        r is Ok <==> !is_blank_seq(to@),
        r matches Err(e) ==> is_bad_request(e, "recipient email is required"@),
{
    if is_blank(to) {
        Err(ApiError::bad_request("recipient email is required"))
    } else {
        Ok(())
    }
}

} // verus!
