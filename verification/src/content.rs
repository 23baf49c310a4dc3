use vstd::prelude::*;

use crate::datetime::{parse_rfc3339, rfc3339_instant, Timestamp};
use crate::error::{is_bad_request, ApiError, ApiResult};
use crate::pagination::{page, page_number, page_size, page_size_number};
use crate::text::{
    chars_of, is_ascii_digit, is_ascii_lower, is_blank_seq, opt_view, require_non_empty, str_eq,
    trim, trim_optional, trim_optional_spec, trim_seq,
};

verus! {

#[derive(Debug)]
pub struct ContentCategoryQueryParams {
    pub page: Option<u64>,
    pub page_size: Option<u64>,
    pub keyword: Option<String>,
    pub enabled: Option<bool>,
}

#[derive(Debug)]
pub struct ContentArticleQueryParams {
    pub page: Option<u64>,
    pub page_size: Option<u64>,
    pub keyword: Option<String>,
    pub category_id: Option<i32>,
    pub status: Option<String>,
    pub is_featured: Option<bool>,
}

impl ContentCategoryQueryParams {
    pub fn page(&self) -> (p: u64)
        ensures
            p == page_number(self.page),
    {
        page(self.page)
    }

    pub fn page_size(&self) -> (s: u64)
        ensures
            s == page_size_number(self.page_size),
    {
        page_size(self.page_size)
    }
}

impl ContentArticleQueryParams {
    pub fn page(&self) -> (p: u64)
        ensures
            p == page_number(self.page),
    {
        page(self.page)
    }

    pub fn page_size(&self) -> (s: u64)
        ensures
            s == page_size_number(self.page_size),
    {
        page_size(self.page_size)
    }

    /// The status an article listing filters on: none when absent or empty;
    /// otherwise it must be a supported status once trimmed, and the listing
    /// filters on it as sent.
    pub fn status_filter(&self) -> (r: ApiResult<Option<String>>)
        ensures
            match self.status {
                None => r matches Ok(None),
                Some(s) => if s@.len() == 0 {
                    r matches Ok(None)
                } else if supported_article_status(trim_seq(s@)) {
                    r matches Ok(Some(f)) && f@ == s@
                } else {
                    r matches Err(e) && is_bad_request(e, "unsupported content article status"@)
                },
            },
    {
        match &self.status {
            None => Ok(None),
            Some(s) => {
                if s.as_str().is_empty() {
                    return Ok(None);
                }
                match validate_status(s.as_str()) {
                    Ok(()) => Ok(Some(s.clone())),
                    Err(e) => Err(e),
                }
            },
        }
    }
}

#[derive(Debug)]
pub struct ContentCategoryRecord {
    pub id: i32,
    pub name: String,
    pub slug: String,
    pub description: Option<String>,
    pub sort_order: i32,
    pub enabled: bool,
    pub created_by: Option<i32>,
    pub updated_by: Option<i32>,
    pub created_at: String,
    pub updated_at: String,
}

#[derive(Debug)]
pub struct SaveContentCategoryParams {
    pub name: String,
    pub slug: String,
    pub description: Option<String>,
    pub sort_order: Option<i32>,
    pub enabled: Option<bool>,
}

#[derive(Debug)]
pub struct ContentArticleRecord {
    pub id: i32,
    pub category_id: i32,
    pub title: String,
    pub slug: String,
    pub summary: Option<String>,
    pub content: String,
    pub cover_image_url: Option<String>,
    pub status: String,
    pub is_featured: bool,
    pub published_at: Option<String>,
    pub seo_title: Option<String>,
    pub seo_description: Option<String>,
    pub created_by: Option<i32>,
    pub updated_by: Option<i32>,
    pub created_at: String,
    pub updated_at: String,
}

#[derive(Debug)]
pub struct SaveContentArticleParams {
    pub category_id: i32,
    pub title: String,
    pub slug: String,
    pub summary: Option<String>,
    pub content: String,
    pub cover_image_url: Option<String>,
    pub status: Option<String>,
    pub is_featured: Option<bool>,
    pub published_at: Option<String>,
    pub seo_title: Option<String>,
    pub seo_description: Option<String>,
}

/// The statuses an article may have.
pub open spec fn supported_article_status(s: Seq<char>) -> bool {
    s == "draft"@ || s == "published"@ || s == "archived"@
}

/// A character a slug may hold: a lower-case ASCII letter, a digit or `-`.
pub open spec fn slug_char(c: char) -> bool {
    is_ascii_lower(c) || is_ascii_digit(c) || c == '-'
}

/// Why a slug is refused, if it is: once trimmed it is required and may
/// only hold lower-case letters, digits and hyphens.
pub open spec fn slug_problem(slug: Seq<char>) -> Option<Seq<char>> {
    let s = trim_seq(slug);
    if s.len() == 0 {
        Some("slug is required"@)
    } else if exists|i: int| 0 <= i < s.len() && !slug_char(#[trigger] s[i]) {
        Some("slug only supports lowercase letters, numbers and hyphens"@)
    } else {
        None
    }
}

/// Refuses a slug as `slug_problem` says.
pub fn validate_slug(slug: &str) -> (r: ApiResult<()>)
    ensures
        r is Ok <==> slug_problem(slug@) is None,
        r matches Err(e) ==> slug_problem(slug@) matches Some(m) && is_bad_request(e, m),
{
    let t = trim(slug);
    if t.as_str().is_empty() {
        return Err(ApiError::bad_request("slug is required"));
    }
    let v = chars_of(t.as_str());
    let mut i: usize = 0;
    while i < v.len()
        invariant
            i <= v@.len(),
            v@ == trim_seq(slug@),
            forall|k: int| 0 <= k < i ==> slug_char(#[trigger] v@[k]),
        decreases v.len() - i,
    {
        let c = v[i];
        if !(('a' <= c && c <= 'z') || ('0' <= c && c <= '9') || c == '-') {
            assert(!slug_char(v@[i as int]));
            return Err(ApiError::bad_request("slug only supports lowercase letters, numbers and hyphens"));
        }
        i = i + 1;
    }
    Ok(())
}

/// A supported article status, once trimmed ("unsupported content article
/// status").
pub fn validate_status(status: &str) -> (r: ApiResult<()>)
    ensures
        r is Ok <==> supported_article_status(trim_seq(status@)),
        r matches Err(e) ==> is_bad_request(e, "unsupported content article status"@),
{
    let t = trim(status);
    if str_eq(t.as_str(), "draft") || str_eq(t.as_str(), "published") || str_eq(t.as_str(), "archived") {
        Ok(())
    } else {
        Err(ApiError::bad_request("unsupported content article status"))
    }
}

/// Why a category cannot be saved, if it cannot.
pub open spec fn category_problem(p: SaveContentCategoryParams) -> Option<Seq<char>> {
    if is_blank_seq(p.name@) {
        Some("name"@ + " is required"@)
    } else {
        slug_problem(p.slug@)
    }
}

/// Refuses a category as `category_problem` says.
pub fn validate_category_params(params: &SaveContentCategoryParams) -> (r: ApiResult<()>)
    ensures
        r is Ok <==> category_problem(*params) is None,
        r matches Err(e) ==> category_problem(*params) matches Some(m) && is_bad_request(e, m),
{
    match require_non_empty("name", params.name.as_str()) {
        Ok(()) => {},
        Err(e) => return Err(e),
    }
    validate_slug(params.slug.as_str())
}

/// A category as saved.
#[derive(Debug)]
pub struct CategoryFields {
    pub name: String,
    pub slug: String,
    pub description: Option<String>,
    pub sort_order: i32,
    pub enabled: bool,
}

/// What a checked category request writes: trimmed name and slug, the
/// trimmed description (blank dropped), sort order 0 and enabled unless
/// given.
pub fn category_fields(params: SaveContentCategoryParams) -> (f: CategoryFields)
    ensures
        f.name@ == trim_seq(params.name@),
        f.slug@ == trim_seq(params.slug@),
        opt_view(f.description) == trim_optional_spec(opt_view(params.description)),
        f.sort_order == match params.sort_order {
            Some(s) => s,
            None => 0,
        },
        f.enabled == match params.enabled {
            Some(b) => b,
            None => true,
        },
{
    CategoryFields {
        name: trim(params.name.as_str()),
        slug: trim(params.slug.as_str()),
        description: trim_optional(params.description),
        sort_order: match params.sort_order {
            Some(s) => s,
            None => 0,
        },
        enabled: match params.enabled {
            Some(b) => b,
            None => true,
        },
    }
}

/// The status a saved article gets: the one sent, trimmed, else "draft".
pub open spec fn article_status(status: Option<String>) -> Seq<char> {
    match status {
        Some(s) => trim_seq(s@),
        None => "draft"@,
    }
}

/// The publication time an article request sets: none when absent or
/// blank; otherwise the trimmed text must be RFC 3339.
pub open spec fn published_at_outcome(value: Option<String>) -> Result<Option<Timestamp>, Seq<char>> {
    match trim_optional_spec(opt_view(value)) {
        None => Ok(None),
        Some(t) => match rfc3339_instant(t) {
            Some(ts) => Ok(Some(ts)),
            None => Err("datetime must be RFC3339"@),
        },
    }
}

/// The publication time of an article request (see `published_at_outcome`).
pub fn parse_optional_datetime(value: Option<String>) -> (r: ApiResult<Option<Timestamp>>)
    ensures
        match r {
            Ok(t) => published_at_outcome(value) == Ok::<Option<Timestamp>, Seq<char>>(t),
            Err(e) => published_at_outcome(value) matches Err(m) && is_bad_request(e, m),
        },
{
    match trim_optional(value) {
        None => Ok(None),
        Some(t) => match parse_rfc3339(t.as_str()) {
            Some(ts) => Ok(Some(ts)),
            None => Err(ApiError::bad_request("datetime must be RFC3339")),
        },
    }
}

/// Why an article cannot be saved once its category is found, if it cannot.
pub open spec fn article_problem(p: SaveContentArticleParams) -> Option<Seq<char>> {
    if is_blank_seq(p.title@) {
        Some("title"@ + " is required"@)
    } else if is_blank_seq(p.content@) {
        Some("content"@ + " is required"@)
    } else if slug_problem(p.slug@) is Some {
        slug_problem(p.slug@)
    } else if !supported_article_status(
        trim_seq(
            match p.status {
                Some(s) => s@,
                None => "draft"@,
            },
        ),
    ) {
        Some("unsupported content article status"@)
    } else {
        match published_at_outcome(p.published_at) {
            Err(m) => Some(m),
            Ok(_) => None,
        }
    }
}

/// An article as saved.
#[derive(Debug)]
pub struct ArticleFields {
    pub category_id: i32,
    pub title: String,
    pub slug: String,
    pub summary: Option<String>,
    pub content: String,
    pub cover_image_url: Option<String>,
    pub status: String,
    pub is_featured: bool,
    pub published_at: Option<Timestamp>,
    pub seo_title: Option<String>,
    pub seo_description: Option<String>,
}

/// What an article request writes once its category is found: its checks
/// in order, then trimmed texts, the status (default "draft"), not
/// featured unless said, and the parsed publication time.
pub fn article_fields(params: SaveContentArticleParams) -> (r: ApiResult<ArticleFields>)
    ensures
        match r {
            Ok(f) => {
                &&& article_problem(params) is None
                &&& f.category_id == params.category_id
                &&& f.title@ == trim_seq(params.title@)
                &&& f.slug@ == trim_seq(params.slug@)
                &&& opt_view(f.summary) == trim_optional_spec(opt_view(params.summary))
                &&& f.content@ == trim_seq(params.content@)
                &&& opt_view(f.cover_image_url) == trim_optional_spec(opt_view(params.cover_image_url))
                &&& f.status@ == article_status(params.status)
                &&& f.is_featured == match params.is_featured {
                    Some(b) => b,
                    None => false,
                }
                &&& published_at_outcome(params.published_at) == Ok::<Option<Timestamp>, Seq<char>>(
                    f.published_at,
                )
                &&& opt_view(f.seo_title) == trim_optional_spec(opt_view(params.seo_title))
                &&& opt_view(f.seo_description) == trim_optional_spec(opt_view(params.seo_description))
            },
            Err(e) => article_problem(params) matches Some(m) && is_bad_request(e, m),
        },
{
    match require_non_empty("title", params.title.as_str()) {
        Ok(()) => {},
        Err(e) => return Err(e),
    }
    match require_non_empty("content", params.content.as_str()) {
        Ok(()) => {},
        Err(e) => return Err(e),
    }
    match validate_slug(params.slug.as_str()) {
        Ok(()) => {},
        Err(e) => return Err(e),
    }
    let status = match &params.status {
        Some(s) => trim(s.as_str()),
        None => String::from_str("draft"),
    };
    proof {
        match &params.status {
            Some(s) => crate::text::lemma_trim_idempotent(s@),
            None => {},
        }
        reveal_strlit("draft");
        assert(trim_seq("draft"@) == "draft"@) by {
            let p = crate::text::ws_pred();
            assert(!p("draft"@[0]));
            assert(!p("draft"@[4]));
            assert(crate::text::strip_start("draft"@, p) == "draft"@);
            assert(crate::text::strip_end("draft"@, p) == "draft"@);
        }
    }
    match validate_status(status.as_str()) {
        Ok(()) => {},
        Err(e) => return Err(e),
    }
    let published_at = match parse_optional_datetime(params.published_at) {
        Ok(t) => t,
        Err(e) => return Err(e),
    };
    Ok(
        ArticleFields {
            category_id: params.category_id,
            title: trim(params.title.as_str()),
            slug: trim(params.slug.as_str()),
            summary: trim_optional(params.summary),
            content: trim(params.content.as_str()),
            cover_image_url: trim_optional(params.cover_image_url),
            status,
            is_featured: match params.is_featured {
                Some(b) => b,
                None => false,
            },
            published_at,
            seo_title: trim_optional(params.seo_title),
            seo_description: trim_optional(params.seo_description),
        },
    )
}

} // verus!
