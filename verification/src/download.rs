use vstd::prelude::*;

use crate::text::opt_view;

verus! {

/// Whether a file is shown in the browser or saved by it.
#[derive(Clone, Copy, Debug, PartialEq, Eq, Structural)]
pub enum FileDisposition {
    Attachment,
    Inline,
}

/// The disposition word of the `Content-Disposition` header.
pub open spec fn disposition_word(d: FileDisposition) -> Seq<char> {
    match d {
        FileDisposition::Attachment => "attachment"@,
        FileDisposition::Inline => "inline"@,
    }
}

impl FileDisposition {
    /// The disposition word of the `Content-Disposition` header.
    pub fn as_header_value(self) -> (s: &'static str)
        ensures
            s@ == disposition_word(self),
    {
        match self {
            FileDisposition::Attachment => "attachment",
            FileDisposition::Inline => "inline",
        }
    }

    /// The action an access to a managed file is logged under.
    pub fn log_action(self) -> (s: &'static str)
        ensures
            s@ == match self {
                FileDisposition::Attachment => "download"@,
                FileDisposition::Inline => "preview"@,
            },
    {
        match self {
            FileDisposition::Attachment => "download",
            FileDisposition::Inline => "preview",
        }
    }

    /// The verb an access to a managed file is described with in the log.
    pub fn log_name(self) -> (s: &'static str)
        ensures
            s@ == match self {
                FileDisposition::Attachment => "下载"@,
                FileDisposition::Inline => "预览"@,
            },
    {
        match self {
            FileDisposition::Attachment => "下载",
            FileDisposition::Inline => "预览",
        }
    }
}

/// The headers of a file sent to the browser, as text.
#[derive(Debug)]
pub struct FileResponseHeaders {
    pub content_type: String,
    pub content_disposition: String,
    /// `Cache-Control`, sent for inline files only.
    pub cache_control: Option<String>,
    /// Whether `X-Content-Type-Options: nosniff` is sent.
    pub nosniff: bool,
}

/// The `Content-Disposition` value for a file shown under `safe_name`.
pub open spec fn disposition_value(d: FileDisposition, safe_name: Seq<char>) -> Seq<char> {
    disposition_word(d) + "; filename=\""@ + safe_name + "\""@
}

/// The headers of a file: its MIME type (or "application/octet-stream"),
/// its disposition under the already sanitized `safe_name`, and, for inline
/// files, `Cache-Control: private, no-store` and, where `nosniff_inline`,
/// `X-Content-Type-Options: nosniff`.
pub fn file_response_headers(
    disposition: FileDisposition,
    mime_type: Option<&str>,
    safe_name: &str,
    nosniff_inline: bool,
) -> (h: FileResponseHeaders)
    ensures
        h.content_type@ == match mime_type {
            Some(m) => m@,
            None => "application/octet-stream"@,
        },
        h.content_disposition@ == disposition_value(disposition, safe_name@),
        opt_view(h.cache_control) == if disposition == FileDisposition::Inline {
            Some("private, no-store"@)
        } else {
            None
        },
        h.nosniff == (disposition == FileDisposition::Inline && nosniff_inline),
{
    let content_type = match mime_type {
        Some(m) => String::from_str(m),
        None => String::from_str("application/octet-stream"),
    };
    let content_disposition = String::from_str(disposition.as_header_value()).concat(
        "; filename=\"",
    ).concat(safe_name).concat("\"");
    let inline = match disposition {
        FileDisposition::Inline => true,
        FileDisposition::Attachment => false,
    };
    let cache_control = if inline {
        Some(String::from_str("private, no-store"))
    } else {
        None
    };
    FileResponseHeaders { content_type, content_disposition, cache_control, nosniff: inline && nosniff_inline }
}

} // verus!
