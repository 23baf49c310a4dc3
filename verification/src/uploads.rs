use vstd::prelude::*;
use vstd::multiset::Multiset;

use crate::error::{is_bad_request, ApiError, ApiResult};
use crate::json::{json_i32_list, json_i32_list_text, parse_json_i32_list, write_json_i32_list};
use crate::numbers::{decimal_string, decimal_text, i32_string, i32_text_value, int_text, parse_i32};
use crate::pagination::{page, page_number, page_size, page_size_number};
use crate::text::{
    ascii_lower, char_ascii_lower, chars_of, lowered, opt_view, str_eq, trim, trim_bounds, trim_seq,
};

verus! {

#[derive(Debug)]
pub struct UploadQueryParams {
    pub page: Option<u64>,
    pub page_size: Option<u64>,
    pub keyword: Option<String>,
    pub category: Option<String>,
    pub mime_type: Option<String>,
    pub status: Option<String>,
    pub storage_profile_id: Option<i32>,
    pub storage_bucket_id: Option<i32>,
    pub bucket: Option<String>,
    pub prefix: Option<String>,
}

impl UploadQueryParams {
    pub fn page(&self) -> (p: u64)
        ensures
            p == page_number(self.page),
    {
        page(self.page)
    }

    pub fn page_size(&self) -> (s: u64)
        ensures
            s == page_size_number(self.page_size),
    {
        page_size(self.page_size)
    }
}

#[derive(Debug)]
pub struct CreateUploadTaskParams {
    pub storage_bucket_id: i32,
    pub original_name: String,
    pub mime_type: Option<String>,
    pub size_bytes: i64,
    pub chunk_size: i64,
    pub total_chunks: i32,
    pub prefix: Option<String>,
    pub category: Option<String>,
    pub tags: Option<String>,
    pub visibility: Option<String>,
}

/// The visibility a file is stored with: "private" when none is given.
pub open spec fn visibility_valid(visibility: Option<Seq<char>>) -> bool {
    match visibility {
        None => true,
        Some(v) => v == "private"@ || v == "public"@,
    }
}

/// Fails with "invalid file visibility" unless the visibility (default
/// "private") is "private" or "public".
pub fn validate_visibility(visibility: Option<&str>) -> (r: ApiResult<()>)
    ensures
        r is Ok <==> visibility_valid(
            match visibility {
                Some(v) => Some(v@),
                None => None,
            },
        ),
        r matches Err(e) ==> is_bad_request(e, "invalid file visibility"@),
{
    match visibility {
        None => Ok(()),
        Some(v) => if str_eq(v, "private") || str_eq(v, "public") {
            Ok(())
        } else {
            Err(ApiError::bad_request("invalid file visibility"))
        },
    }
}

/// Fails with "invalid file status" unless the status (default "active") is
/// "active" or "deleted".
pub fn validate_file_status(status: Option<&str>) -> (r: ApiResult<()>)
    ensures
        r is Ok <==> match status {
            None => true,
            Some(s) => s@ == "active"@ || s@ == "deleted"@,
        },
        r matches Err(e) ==> is_bad_request(e, "invalid file status"@),
{
    match status {
        None => Ok(()),
        Some(s) => if str_eq(s, "active") || str_eq(s, "deleted") {
            Ok(())
        } else {
            Err(ApiError::bad_request("invalid file status"))
        },
    }
}

/// The largest upload, in bytes, for a limit of `max_mb` mebibytes (at
/// least one).
pub open spec fn upload_limit(max_mb: i64) -> int {
    (if max_mb < 1 {
        1
    } else {
        max_mb as int
    }) * 1024 * 1024
}

/// `max_mb.max(1) * 1024 * 1024`.
pub fn upload_limit_bytes(max_mb: i64) -> (r: i64)
    requires
        max_mb <= 8_796_093_022_207,
    ensures
        r == upload_limit(max_mb),
{
    let mb = if max_mb < 1 {
        1
    } else {
        max_mb
    };
    mb * 1024 * 1024
}

/// Whether a chunk of `chunk_len` bytes may be added to `current_len` read
/// bytes without passing `max_bytes` (a negative limit, or one past
/// `usize::MAX`, stands for `usize::MAX`; the sum saturates).
pub open spec fn chunk_fits(current_len: usize, chunk_len: usize, max_bytes: i64) -> bool {
    let limit: int = if max_bytes < 0 { usize::MAX as int } else if max_bytes > usize::MAX { usize::MAX as int } else { max_bytes as int };
    let sum: int = if current_len + chunk_len > usize::MAX { usize::MAX as int } else { current_len + chunk_len };
    sum <= limit
}

/// The size check of a streamed upload: `current + chunk` (saturating)
/// must not pass the limit (`usize::try_from(max).unwrap_or(usize::MAX)`).
pub fn accept_chunk(current_len: usize, chunk_len: usize, max_bytes: i64) -> (r: ApiResult<()>)
    ensures
        r is Ok <==> chunk_fits(current_len, chunk_len, max_bytes),
        r matches Err(e) ==> is_bad_request(e, "uploaded file is too large"@),
{
    let limit: usize = if max_bytes < 0 {
        usize::MAX
    } else if max_bytes as u64 > usize::MAX as u64 {
        usize::MAX
    } else {
        max_bytes as usize
    };
    let sum = current_len.saturating_add(chunk_len);
    if sum > limit {
        Err(ApiError::bad_request("uploaded file is too large"))
    } else {
        Ok(())
    }
}

/// Reads one more chunk of an uploaded file into `bytes`, unless the file
/// would then pass `max_bytes` ("uploaded file is too large").
pub fn append_chunk(bytes: &mut Vec<u8>, chunk: &[u8], max_bytes: i64) -> (r: ApiResult<()>)
    ensures
        r is Ok <==> chunk_fits(old(bytes)@.len() as usize, chunk@.len() as usize, max_bytes),
        r is Ok ==> final(bytes)@ == old(bytes)@ + chunk@,
        r is Err ==> final(bytes)@ == old(bytes)@,
        r matches Err(e) ==> is_bad_request(e, "uploaded file is too large"@),
{
    match accept_chunk(bytes.len(), chunk.len(), max_bytes) {
        Ok(()) => {
            let mut i: usize = 0;
            let ghost start = bytes@;
            while i < chunk.len()
                invariant
                    i <= chunk@.len(),
                    bytes@ == start + chunk@.take(i as int),
                decreases chunk.len() - i,
            {
                bytes.push(chunk[i]);
                assert(chunk@.take(i + 1) =~= chunk@.take(i as int).push(chunk@[i as int]));
                i = i + 1;
            }
            assert(chunk@.take(chunk@.len() as int) =~= chunk@);
            Ok(())
        },
        Err(e) => Err(e),
    }
}

/// The first problem of a chunked-upload request that the request alone
/// shows, in the order the checks run.
pub open spec fn upload_task_problem(params: CreateUploadTaskParams, max_bytes: i64) -> Option<Seq<char>> {
    if !visibility_valid(
        match params.visibility {
            Some(v) => Some(v@),
            None => None,
        },
    ) {
        Some("invalid file visibility"@)
    } else if params.size_bytes <= 0 || params.chunk_size <= 0 || params.total_chunks <= 0 {
        Some("invalid upload task size"@)
    } else if params.size_bytes > max_bytes {
        Some("uploaded file is too large"@)
    } else {
        None
    }
}

/// Checks a chunked-upload request: its visibility, positive sizes and
/// chunk count, and a size within the limit.
pub fn check_upload_task(params: &CreateUploadTaskParams, max_bytes: i64) -> (r: ApiResult<()>)
    ensures
        match upload_task_problem(*params, max_bytes) {
            None => r is Ok,
            Some(m) => r matches Err(e) && is_bad_request(e, m),
        },
{
    match &params.visibility {
        Some(v) => validate_visibility(Some(v.as_str()))?,
        None => {},
    }
    if params.size_bytes <= 0 || params.chunk_size <= 0 || params.total_chunks <= 0 {
        return Err(ApiError::bad_request("invalid upload task size"));
    }
    if params.size_bytes > max_bytes {
        return Err(ApiError::bad_request("uploaded file is too large"));
    }
    Ok(())
}

/// Checks the index of an uploaded chunk: `0 <= index < total`.
pub fn check_chunk_index(chunk_index: i32, total_chunks: i32) -> (r: ApiResult<()>)
    ensures
        r is Ok <==> 0 <= chunk_index < total_chunks,
        r matches Err(e) ==> is_bad_request(e, "invalid chunk index"@),
{
    if chunk_index < 0 || chunk_index >= total_chunks {
        return Err(ApiError::bad_request("invalid chunk index"));
    }
    Ok(())
}

// ---------------------------------------------------------------------------
// The list of received chunks
// ---------------------------------------------------------------------------

/// Holds when `s` is in ascending order.
pub open spec fn sorted(s: Seq<i32>) -> bool {
    forall|i: int, j: int| 0 <= i <= j < s.len() ==> s[i] <= s[j]
}

/// The chunks a task has received, read from their stored JSON text (an
/// unreadable text counts as none received).
pub open spec fn stored_chunks(text: Seq<char>) -> Seq<i32> {
    match json_i32_list(text) {
        Some(list) => list,
        None => Seq::empty(),
    }
}

/// `serde_json::from_str(value).unwrap_or_default()`.
pub fn parse_uploaded_chunks(value: &str) -> (r: Vec<i32>)
    ensures
        r@ == stored_chunks(value@),
{
    match parse_json_i32_list(value) {
        Some(v) => v,
        None => Vec::new(),
    }
}

/// The JSON text the received chunks are stored as.
pub fn serialize_uploaded_chunks(chunks: &[i32]) -> (r: String)
    ensures
        r@ == json_i32_list_text(chunks@),
{
    write_json_i32_list(chunks)
}

/// The chunks after chunk `index` arrived: `index` is added when it is not
/// yet there, and the list is sorted. Returned as the list's contents.
pub open spec fn chunks_after(chunks: Seq<i32>, index: i32) -> Multiset<i32> {
    if chunks.contains(index) {
        chunks.to_multiset()
    } else {
        chunks.to_multiset().insert(index)
    }
}

/// Sorts a list of chunk indexes (insertion sort).
pub fn sort_chunks(v: Vec<i32>) -> (r: Vec<i32>)
    ensures
        sorted(r@),
        r@.to_multiset() == v@.to_multiset(),
{
    broadcast use vstd::seq_lib::group_to_multiset_ensures;
    let mut out: Vec<i32> = Vec::new();
    let mut i: usize = 0;
    while i < v.len()
        invariant
            i <= v.len(),
            sorted(out@),
            out@.to_multiset() == v@.take(i as int).to_multiset(),
        decreases v.len() - i,
    {
        let x = v[i];
        let mut pos: usize = 0;
        while pos < out.len() && out[pos] <= x
            invariant
                pos <= out.len(),
                sorted(out@),
                forall|k: int| 0 <= k < pos ==> out@[k] <= x,
            decreases out.len() - pos,
        {
            pos = pos + 1;
        }
        let ghost old_out = out@;
        out.insert(pos, x);
        proof {
            assert(out@ =~= old_out.insert(pos as int, x));
            assert forall|a: int, b: int| 0 <= a <= b < out@.len() implies out@[a] <= out@[b] by {
                if a < pos && b < pos {
                } else if a < pos && b == pos {
                } else if a < pos && b > pos {
                    assert(out@[b] == old_out[b - 1]);
                } else if a == pos && b == pos {
                } else if a == pos {
                    assert(out@[b] == old_out[b - 1]);
                    assert(pos < old_out.len());
                    assert(!(old_out[pos as int] <= x));
                    assert(old_out[pos as int] <= old_out[b - 1]);
                } else {
                    assert(out@[a] == old_out[a - 1]);
                    assert(out@[b] == old_out[b - 1]);
                }
            }
            // The inserted list's multiset gains `x`.
            assert(out@.remove(pos as int) =~= old_out);
            assert(out@[pos as int] == x);
            out@.to_multiset_ensures();
            assert(out@.remove(pos as int).to_multiset() == out@.to_multiset().remove(x));
            assert(out@.contains(x));
            assert(out@.to_multiset().count(x) > 0);
            assert(old_out.to_multiset().insert(x) =~= out@.to_multiset());
            assert(v@.take(i + 1) =~= v@.take(i as int).push(x));
            v@.take(i as int).to_multiset_ensures();
        }
        i = i + 1;
    }
    assert(v@.take(v.len() as int) =~= v@);
    out
}

/// Records the arrival of chunk `index`: adds it when absent and sorts the
/// list.
pub fn record_chunk(chunks: Vec<i32>, index: i32) -> (r: Vec<i32>)
    ensures
        sorted(r@),
        r@.to_multiset() == chunks_after(chunks@, index),
        r@.contains(index),
{
    broadcast use vstd::seq_lib::group_to_multiset_ensures;
    let mut chunks = chunks;
    let mut found = false;
    let mut i: usize = 0;
    while i < chunks.len()
        invariant
            i <= chunks.len(),
            found <==> exists|k: int| 0 <= k < i && chunks@[k] == index,
        decreases chunks.len() - i,
    {
        if chunks[i] == index {
            found = true;
        }
        i = i + 1;
    }
    let ghost before = chunks@;
    if !found {
        chunks.push(index);
        assert(chunks@ =~= before.push(index));
    }
    let r = sort_chunks(chunks);
    proof {
        if found {
            let k = choose|k: int| 0 <= k < before.len() && before[k] == index;
            assert(before.contains(index));
        }
        assert(r@.to_multiset().count(index) > 0);
    }
    r
}

/// Holds when every chunk of a task of `total` chunks has arrived (a
/// negative total counts as zero).
pub open spec fn all_chunks_arrived(received: Seq<i32>, total: i32) -> bool {
    received.len() == if total < 0 {
        0
    } else {
        total as int
    }
}

/// Fails with "upload task chunks are incomplete" unless as many chunks
/// arrived as the task has.
pub fn check_chunks_complete(received: &Vec<i32>, total_chunks: i32) -> (r: ApiResult<()>)
    ensures
        r is Ok <==> all_chunks_arrived(received@, total_chunks),
        r matches Err(e) ==> is_bad_request(e, "upload task chunks are incomplete"@),
{
    let expected: usize = if total_chunks < 0 {
        0
    } else {
        total_chunks as usize
    };
    if received.len() != expected {
        return Err(ApiError::bad_request("upload task chunks are incomplete"));
    }
    Ok(())
}

/// Law: recording chunks never loses or duplicates one: a chunk recorded
/// twice is counted once, and every chunk that was there is still there.
pub proof fn law_recording_a_chunk_is_idempotent(chunks: Seq<i32>, index: i32)
    ensures
        chunks_after(chunks, index).count(index) >= 1,
        chunks.contains(index) ==> chunks_after(chunks, index) == chunks.to_multiset(),
        forall|x: i32| x != index ==> chunks_after(chunks, index).count(x) == chunks.to_multiset().count(x),
{
    broadcast use vstd::seq_lib::group_to_multiset_ensures;
}

// ---------------------------------------------------------------------------
// Allowed extensions and stored names
// ---------------------------------------------------------------------------

/// Holds when `s[i..j]` is one of the `,`-separated items of `s`.
pub open spec fn comma_item(s: Seq<char>, i: int, j: int) -> bool {
    &&& 0 <= i <= j <= s.len()
    &&& (i == 0 || s[i - 1] == ',')
    &&& (j == s.len() || s[j] == ',')
    &&& forall|k: int| i <= k < j ==> s[k] != ','
}

/// Holds when `ext` is one of the items of the comma-separated setting
/// (each item trimmed and put in ASCII lower case).
pub open spec fn extension_listed(setting: Seq<char>, ext: Seq<char>) -> bool {
    exists|i: int, j: int|
        #[trigger] comma_item(setting, i, j) && lowered(trim_seq(setting.subrange(i, j))) == ext
}

/// Whether the trimmed, lower-cased `v[lo..hi]` is `ext`.
fn item_matches(v: &Vec<char>, lo: usize, hi: usize, ext: &Vec<char>) -> (b: bool)
    requires
        lo <= hi <= v.len(),
    ensures
        b == (lowered(trim_seq(v@.subrange(lo as int, hi as int)))
            == ext@),
{
    let item = crate::text::string_of_range(v, lo, hi);
    let w = chars_of(item.as_str());
    let (a, b) = trim_bounds(&w);
    let ghost t = w@.subrange(a as int, b as int);
    let ghost low = lowered(t);
    assert(w@ == v@.subrange(lo as int, hi as int));
    assert(t == trim_seq(v@.subrange(lo as int, hi as int)));
    assert(low.len() == t.len());
    if b - a != ext.len() {
        assert(low.len() != ext@.len());
        assert(low != ext@);
        assert(lowered(trim_seq(v@.subrange(lo as int, hi as int))) == low);
        return false;
    }
    let mut k: usize = 0;
    while k < b - a
        invariant
            a <= b <= w.len(),
            b - a == ext.len(),
            t == w@.subrange(a as int, b as int),
            low == lowered(t),
            low == lowered(trim_seq(v@.subrange(lo as int, hi as int))),
            k <= b - a,
            forall|m: int| 0 <= m < k ==> low[m] == ext@[m],
        decreases b - a - k,
    {
        if char_ascii_lower(w[a + k]) != ext[k] {
            assert(low[k as int] != ext@[k as int]);
            return false;
        }
        k = k + 1;
    }
    assert(low =~= ext@);
    true
}

/// Fails unless the file has an extension ("uploaded file extension is
/// required") listed in the allowed-extensions setting ("uploaded file
/// extension is not allowed").
#[verifier::loop_isolation(false)]
pub fn ensure_allowed_extension(extension: Option<&str>, allowed_setting: &str) -> (r: ApiResult<()>)
    ensures
        match extension {
            None => r matches Err(e) && is_bad_request(e, "uploaded file extension is required"@),
            Some(ext) => if extension_listed(allowed_setting@, ext@) {
                r is Ok
            } else {
                r matches Err(e) && is_bad_request(e, "uploaded file extension is not allowed"@)
            },
        },
{
    let ext = match extension {
        None => {
            return Err(ApiError::bad_request("uploaded file extension is required"));
        },
        Some(e) => e,
    };
    let e = chars_of(ext);
    let v = chars_of(allowed_setting);
    let ghost s = v@;
    let n = v.len();
    let mut start: usize = 0;
    let mut i: usize = 0;
    while i <= n
        invariant
            start <= i <= n,
            n == v.len(),
            s == v@,
            start == 0 || v@[start - 1] == ',',
            forall|k: int| start <= k < i ==> v@[k] != ',',
            forall|a: int, b: int|
                comma_item(s, a, b) && b < start ==> lowered(trim_seq(s.subrange(a, b))) != e@,
        decreases n + 1 - i,
    {
        if i == n || v[i] == ',' {
            assert(comma_item(s, start as int, i as int));
            if item_matches(&v, start, i, &e) {
                return Ok(());
            }
            assert forall|a: int, b: int|
                comma_item(s, a, b) && b < i + 1 implies lowered(trim_seq(s.subrange(a, b))) != e@ by {
                if b >= start {
                    if b < i {
                        assert(s[b] != ',');
                    }
                    if a < start {
                        assert(s[start - 1] == ',');
                    }
                    if a > start {
                        assert(s[a - 1] != ',');
                    }
                }
            }
            if i == n {
                assert forall|a: int, b: int| #[trigger] comma_item(s, a, b) implies lowered(trim_seq(s.subrange(a, b))) != e@ by {
                    assert(b < i + 1);
                }
                return Err(ApiError::bad_request("uploaded file extension is not allowed"));
            }
            start = i + 1;
        }
        i = i + 1;
    }
    Err(ApiError::bad_request("uploaded file extension is not allowed"))
}

/// The stored name of an upload: a unique id, `-`, then the sanitized name.
pub open spec fn stored_filename_spec(unique_id: Seq<char>, original_name: Seq<char>) -> Seq<char> {
    unique_id + "-"@ + crate::files::sanitized_upload_name(original_name)
}

/// `format!("{unique_id}-{safe_name}")`.
pub fn stored_filename(unique_id: &str, original_name: &str) -> (r: String)
    ensures
        r@ == stored_filename_spec(unique_id@, original_name@),
{
    let safe = crate::files::sanitize_upload_filename(original_name);
    String::from_str(unique_id).concat("-").concat(safe.as_str())
}

/// The path a chunk of a task is kept at until the upload completes.
pub open spec fn chunk_path_spec(task_id: i32, chunk_index: i32) -> Seq<char> {
    "storage/upload_tasks/"@ + int_text(task_id as int) + "/"@ + int_text(chunk_index as int)
        + ".part"@
}

/// `storage/upload_tasks/<task>/<chunk>.part`.
pub fn task_chunk_path(task_id: i32, chunk_index: i32) -> (r: String)
    ensures
        r@ == chunk_path_spec(task_id, chunk_index),
{
    let task = i32_string(task_id);
    let chunk = i32_string(chunk_index);
    String::from_str("storage/upload_tasks/").concat(task.as_str()).concat("/").concat(
        chunk.as_str(),
    ).concat(".part")
}

/// The download URL of an upload that has none yet.
pub open spec fn download_url_spec(id: i32) -> Seq<char> {
    "/api/admin/uploads/"@ + int_text(id as int) + "/download"@
}

/// The URL an upload is served from: the stored one, or the download route
/// when it has none.
pub fn ensure_download_url(url: &str, id: i32) -> (r: Option<String>)
    ensures
        url@.len() > 0 ==> r is None,
        url@.len() == 0 ==> (r matches Some(u) && u@ == download_url_spec(id)),
{
    if !url.is_empty() {
        return None;
    }
    let n = i32_string(id);
    Some(String::from_str("/api/admin/uploads/").concat(n.as_str()).concat("/download"))
}


/// A file part of an upload form.
#[derive(Debug)]
pub struct UploadedPart {
    pub original_name: String,
    pub mime_type: Option<String>,
    pub bytes: Vec<u8>,
}

/// The file part of an upload form: the name the form gives, or
/// "upload.bin" when it gives none.
pub fn uploaded_part(file_name: Option<String>, mime_type: Option<String>, bytes: Vec<u8>) -> (p:
    UploadedPart)
    ensures
        p.original_name@ == match file_name {
            Some(n) => n@,
            None => "upload.bin"@,
        },
        p.mime_type == mime_type,
        p.bytes@ == bytes@,
{
    let original_name = match file_name {
        Some(n) => n,
        None => String::from_str("upload.bin"),
    };
    UploadedPart { original_name, mime_type, bytes }
}

/// The fields of an upload form, as they are read part by part.
#[derive(Debug)]
pub struct UploadPayload {
    pub storage_profile_id: Option<i32>,
    pub storage_bucket_id: Option<i32>,
    pub prefix: Option<String>,
    pub category: Option<String>,
    pub tags: Option<String>,
    pub visibility: Option<String>,
    pub file: Option<UploadedPart>,
}

/// The text fields of an upload form.
pub struct PayloadFields {
    pub storage_profile_id: Option<i32>,
    pub storage_bucket_id: Option<i32>,
    pub prefix: Option<Seq<char>>,
    pub category: Option<Seq<char>>,
    pub tags: Option<Seq<char>>,
    pub visibility: Option<Seq<char>>,
}

impl View for UploadPayload {
    type V = PayloadFields;

    open spec fn view(&self) -> PayloadFields {
        PayloadFields {
            storage_profile_id: self.storage_profile_id,
            storage_bucket_id: self.storage_bucket_id,
            prefix: opt_view(self.prefix),
            category: opt_view(self.category),
            tags: opt_view(self.tags),
            visibility: opt_view(self.visibility),
        }
    }
}

/// What a text part named `name` does to the form: a blank value changes
/// nothing; the ids must parse as `i32` ("invalid <name>"); the visibility
/// must be "private" or "public" ("invalid file visibility"); the prefix,
/// category and tags are taken trimmed; other names are ignored.
pub open spec fn payload_field_outcome(p: PayloadFields, name: Seq<char>, value: Seq<char>) -> Result<
    PayloadFields,
    Seq<char>,
> {
    let t = trim_seq(value);
    if t.len() == 0 {
        Ok(p)
    } else if name == "storage_profile_id"@ {
        match i32_text_value(t) {
            Some(n) => Ok(PayloadFields { storage_profile_id: Some(n), ..p }),
            None => Err("invalid "@ + name),
        }
    } else if name == "storage_bucket_id"@ {
        match i32_text_value(t) {
            Some(n) => Ok(PayloadFields { storage_bucket_id: Some(n), ..p }),
            None => Err("invalid "@ + name),
        }
    } else if name == "prefix"@ {
        Ok(PayloadFields { prefix: Some(t), ..p })
    } else if name == "category"@ {
        Ok(PayloadFields { category: Some(t), ..p })
    } else if name == "tags"@ {
        Ok(PayloadFields { tags: Some(t), ..p })
    } else if name == "visibility"@ {
        if t == "private"@ || t == "public"@ {
            Ok(PayloadFields { visibility: Some(t), ..p })
        } else {
            Err("invalid file visibility"@)
        }
    } else {
        Ok(p)
    }
}

impl UploadPayload {
    /// An empty form.
    pub fn new() -> (p: UploadPayload)
        ensures
            p@ == (PayloadFields {
                storage_profile_id: None,
                storage_bucket_id: None,
                prefix: None,
                category: None,
                tags: None,
                visibility: None,
            }),
            p.file is None,
    {
        UploadPayload {
            storage_profile_id: None,
            storage_bucket_id: None,
            prefix: None,
            category: None,
            tags: None,
            visibility: None,
            file: None,
        }
    }

    /// Takes one text part of the form, as `payload_field_outcome` says; on
    /// a refusal the form is left as it was.
    pub fn set_field(&mut self, name: &str, value: &str) -> (r: ApiResult<()>)
        ensures
            final(self).file == old(self).file,
            match payload_field_outcome(old(self)@, name@, value@) {
                Ok(p) => r is Ok && final(self)@ == p,
                Err(m) => r matches Err(e) && is_bad_request(e, m) && final(self)@ == old(self)@,
            },
    {
        let t = trim(value);
        if t.as_str().is_empty() {
            return Ok(());
        }
        if str_eq(name, "storage_profile_id") {
            let n = parse_i32(t.as_str(), name)?;
            self.storage_profile_id = Some(n);
        } else if str_eq(name, "storage_bucket_id") {
            let n = parse_i32(t.as_str(), name)?;
            self.storage_bucket_id = Some(n);
        } else if str_eq(name, "prefix") {
            self.prefix = Some(t);
        } else if str_eq(name, "category") {
            self.category = Some(t);
        } else if str_eq(name, "tags") {
            self.tags = Some(t);
        } else if str_eq(name, "visibility") {
            validate_visibility(Some(t.as_str()))?;
            self.visibility = Some(t);
        }
        Ok(())
    }
}

/// The file part of a form, which an upload cannot do without.
pub fn require_file(file: Option<UploadedPart>) -> (r: ApiResult<UploadedPart>)
    ensures
        match file {
            Some(f) => r == Ok::<UploadedPart, ApiError>(f),
            None => r matches Err(e) && is_bad_request(e, "file field is required"@),
        },
{
    match file {
        Some(f) => Ok(f),
        None => Err(ApiError::bad_request("file field is required")),
    }
}

/// A requested storage profile must be the one the bucket belongs to.
pub fn check_profile_matches(requested: Option<i32>, profile_id: i32) -> (r: ApiResult<()>)
    ensures
        r is Ok <==> !(requested matches Some(id) && id != profile_id),
        r matches Err(e) ==> is_bad_request(e, "storage profile does not match bucket"@),
{
    match requested {
        Some(id) => if id != profile_id {
            Err(ApiError::bad_request("storage profile does not match bucket"))
        } else {
            Ok(())
        },
        None => Ok(()),
    }
}

/// The prefix an upload is stored under: the given one, else the
/// year/month path of the day.
pub fn upload_prefix(prefix: Option<String>, date_path: String) -> (r: String)
    ensures
        r@ == match prefix {
            Some(p) => p@,
            None => date_path@,
        },
{
    match prefix {
        Some(p) => p,
        None => date_path,
    }
}

/// The prefix a new upload is stored under: the given one, else the
/// year/month path of today in UTC.
pub fn upload_prefix_now(prefix: Option<String>) -> (r: String)
    ensures
        prefix matches Some(p) ==> r@ == p@,
        prefix is None ==> crate::datetime::year_month_path(r@),
{
    match prefix {
        Some(p) => p,
        None => crate::datetime::utc_year_month_path(),
    }
}

/// The visibility a file is stored with: "private" when none is given.
pub fn stored_visibility(visibility: Option<String>) -> (r: String)
    ensures
        r@ == match visibility {
            Some(v) => v@,
            None => "private"@,
        },
{
    match visibility {
        Some(v) => v,
        None => String::from_str("private"),
    }
}

/// Where the storage service put an uploaded object.
#[derive(Debug)]
pub struct StoredObjectInfo {
    pub bucket: String,
    pub prefix: Option<String>,
    pub etag: Option<String>,
    pub object_key: String,
    pub url: String,
}

/// An uploaded file to insert.
#[derive(Debug)]
pub struct NewUploadFile {
    pub storage: String,
    pub storage_profile_id: Option<i32>,
    pub storage_bucket_id: Option<i32>,
    pub bucket: Option<String>,
    pub prefix: Option<String>,
    pub etag: Option<String>,
    pub object_key: String,
    pub url: String,
    pub original_name: String,
    pub filename: String,
    pub extension: Option<String>,
    pub mime_type: Option<String>,
    pub size_bytes: i64,
    pub sha256: String,
    pub category: Option<String>,
    pub tags: Option<String>,
    pub visibility: String,
    pub status: String,
    pub uploader_id: Option<i32>,
}

/// The record of a file uploaded through the form: the storage profile's
/// provider and ids, where the object was stored, the part's name, type and
/// size, the lower-case hexadecimal SHA-256 of its bytes, the extension of
/// its name, the form's category and tags, its visibility ("private" when
/// none was sent), status "active", and the uploader.
pub fn new_upload_record(
    form: UploadPayload,
    part: UploadedPart,
    filename: String,
    provider: String,
    profile_id: i32,
    bucket_id: i32,
    stored: StoredObjectInfo,
    uploader_id: i32,
) -> (r: NewUploadFile)
    ensures
        r.storage == provider,
        r.storage_profile_id == Some(profile_id),
        r.storage_bucket_id == Some(bucket_id),
        r.bucket == Some(stored.bucket),
        r.prefix == stored.prefix,
        r.etag == stored.etag,
        r.object_key == stored.object_key,
        r.url == stored.url,
        r.original_name == part.original_name,
        r.filename == filename,
        opt_view(r.extension) == crate::files::extension_of(part.original_name@),
        r.mime_type == part.mime_type,
        r.size_bytes == if part.bytes@.len() <= i64::MAX {
            part.bytes@.len() as int
        } else {
            i64::MAX as int
        },
        r.sha256@ == crate::digest::lower_hex(crate::digest::sha256_digest(part.bytes@)),
        r.category == form.category,
        r.tags == form.tags,
        r.visibility@ == match form.visibility {
            Some(v) => v@,
            None => "private"@,
        },
        r.status@ == "active"@,
        r.uploader_id == Some(uploader_id),
{
    let extension = crate::files::file_extension(part.original_name.as_str());
    let sha256 = crate::digest::sha256_hex(part.bytes.as_slice());
    let size_bytes = size_bytes_i64(part.bytes.len());
    let visibility = stored_visibility(form.visibility);
    NewUploadFile {
        storage: provider,
        storage_profile_id: Some(profile_id),
        storage_bucket_id: Some(bucket_id),
        bucket: Some(stored.bucket),
        prefix: stored.prefix,
        etag: stored.etag,
        object_key: stored.object_key,
        url: stored.url,
        original_name: part.original_name,
        filename,
        extension,
        mime_type: part.mime_type,
        size_bytes,
        sha256,
        category: form.category,
        tags: form.tags,
        visibility,
        status: String::from_str("active"),
        uploader_id: Some(uploader_id),
    }
}

/// A byte count as the `i64` a record stores, saturating.
pub fn size_bytes_i64(len: usize) -> (r: i64)
    ensures
        r == if len <= i64::MAX {
            len as int
        } else {
            i64::MAX as int
        },
{
    if len as u128 <= i64::MAX as u128 {
        len as i64
    } else {
        i64::MAX
    }
}

/// The new name of a file, trimmed: it cannot be blank ("file name is
/// required").
pub fn rename_target_name(original_name: &str) -> (r: ApiResult<String>)
    ensures
        match r {
            Ok(n) => n@ == trim_seq(original_name@) && n@.len() > 0,
            Err(e) => trim_seq(original_name@).len() == 0 && is_bad_request(e, "file name is required"@),
        },
{
    let t = trim(original_name);
    if t.as_str().is_empty() {
        Err(ApiError::bad_request("file name is required"))
    } else {
        Ok(t)
    }
}

/// What a rename of a file comes to.
#[derive(Debug)]
pub struct RenamePlan {
    pub original_name: String,
    pub filename: String,
    pub extension: Option<String>,
    pub target_key: String,
    pub moves: bool,
}

/// Plans the rename of an active file to `name` (already trimmed): the new
/// name must have an allowed extension; the stored name is the sanitized
/// one, under the file's prefix; the object moves when its key changes.
pub fn plan_rename(
    name: &str,
    file_status: &str,
    prefix: Option<&str>,
    object_key: &str,
    allowed_setting: &str,
) -> (r: ApiResult<RenamePlan>)
    ensures
        file_status@ != "active"@ ==> (r matches Err(e) && is_bad_request(e, "file is not active"@)),
        file_status@ == "active"@ ==> match crate::files::extension_of(name@) {
            None => r matches Err(e) && is_bad_request(e, "uploaded file extension is required"@),
            Some(ext) => if !extension_listed(allowed_setting@, ext) {
                r matches Err(e) && is_bad_request(e, "uploaded file extension is not allowed"@)
            } else {
                r matches Ok(plan) && {
                    &&& plan.original_name@ == name@
                    &&& plan.filename@ == crate::files::sanitized_upload_name(name@)
                    &&& opt_view(plan.extension) == crate::files::extension_of(name@)
                    &&& plan.target_key@ == crate::files::object_key(
                        match prefix {
                            Some(p) => Some(p@),
                            None => None,
                        },
                        plan.filename@,
                    )
                    &&& plan.moves == (plan.target_key@ != object_key@)
                }
            },
        },
{
    if !str_eq(file_status, "active") {
        return Err(ApiError::bad_request("file is not active"));
    }
    let extension = crate::files::file_extension(name);
    let allowed = match &extension {
        Some(e) => ensure_allowed_extension(Some(e.as_str()), allowed_setting),
        None => ensure_allowed_extension(None, allowed_setting),
    };
    allowed?;
    let filename = crate::files::sanitize_upload_filename(name);
    let target_key = crate::files::join_object_key(prefix, filename.as_str());
    let moves = !str_eq(target_key.as_str(), object_key);
    Ok(RenamePlan { original_name: String::from_str(name), filename, extension, target_key, moves })
}

/// A moved file's new key must be free: not imported by another record
/// ("target object already imported"), nor taken in storage ("target object
/// already exists").
pub fn check_rename_target(already_imported: bool, exists_in_storage: bool) -> (r: ApiResult<()>)
    ensures
        r is Ok <==> !already_imported && !exists_in_storage,
        already_imported ==> (r matches Err(e) && is_bad_request(e, "target object already imported"@)),
        !already_imported && exists_in_storage ==> (r matches Err(e) && is_bad_request(
            e,
            "target object already exists"@,
        )),
{
    if already_imported {
        Err(ApiError::bad_request("target object already imported"))
    } else if exists_in_storage {
        Err(ApiError::bad_request("target object already exists"))
    } else {
        Ok(())
    }
}

} // verus!
