use vstd::prelude::*;

use crate::error::{is_bad_request, ApiError, ApiResult};
use crate::text::{
    ascii_lower, lowered, char_ascii_lower, char_from_ascii, char_is_ascii_alphanumeric, char_pred, chars_of,
    is_ascii_alphanumeric, is_blank, is_blank_seq, lemma_strip_end_step, lemma_strip_start_step,
    push_char, str_eq, string_of, string_of_range, strip_end, strip_start, trim, trim_seq,
    is_whitespace, lemma_strip_nothing, ws_pred,
};

verus! {

// ---------------------------------------------------------------------------
// Searching and stripping characters
// ---------------------------------------------------------------------------

/// The index of the last `c` in `s`, or -1.
pub open spec fn last_index(s: Seq<char>, c: char) -> int
    decreases s.len(),
{
    if s.len() == 0 {
        -1
    } else if s.last() == c {
        s.len() - 1
    } else {
        last_index(s.drop_last(), c)
    }
}

/// `last_index` finds the last occurrence, or none.
pub proof fn lemma_last_index(s: Seq<char>, c: char)
    ensures
        -1 <= last_index(s, c) < s.len(),
        last_index(s, c) >= 0 ==> s[last_index(s, c)] == c,
        forall|j: int| last_index(s, c) < j < s.len() ==> s[j] != c,
    decreases s.len(),
{
    if s.len() > 0 && s.last() != c {
        let t = s.drop_last();
        lemma_last_index(t, c);
        assert forall|j: int| last_index(s, c) < j < s.len() implies s[j] != c by {
            if j < s.len() - 1 {
                assert(s[j] == t[j]);
            }
        }
    }
}

/// The position of the last `c` in `v`, found from the end.
pub fn rfind(v: &Vec<char>, c: char) -> (r: Option<usize>)
    ensures
        match r {
            Some(k) => k < v.len() && k as int == last_index(v@, c),
            None => last_index(v@, c) == -1,
        },
{
    let mut j = v.len();
    assert(v@.subrange(0, v.len() as int) =~= v@);
    while j > 0 && v[j - 1] != c
        invariant
            j <= v.len(),
            last_index(v@, c) == last_index(v@.subrange(0, j as int), c),
        decreases j,
    {
        assert(v@.subrange(0, j as int).drop_last() =~= v@.subrange(0, j - 1));
        j = j - 1;
    }
    if j == 0 {
        assert(v@.subrange(0, 0) =~= Seq::<char>::empty());
        None
    } else {
        Some(j - 1)
    }
}

/// The bounds of `v` without its leading and trailing `c`.
pub fn strip_char_bounds(v: &Vec<char>, lo: usize, hi: usize, c: char) -> (r: (usize, usize))
    requires
        lo <= hi <= v.len(),
    ensures
        lo <= r.0 <= r.1 <= hi,
        v@.subrange(r.0 as int, r.1 as int) == strip_end(
            strip_start(v@.subrange(lo as int, hi as int), char_pred(c)),
            char_pred(c),
        ),
{
    let ghost p = char_pred(c);
    let ghost s = v@.subrange(lo as int, hi as int);
    let mut i = lo;
    assert(s =~= v@.subrange(lo as int, hi as int));
    while i < hi && v[i] == c
        invariant
            lo <= i <= hi <= v.len(),
            p == char_pred(c),
            s == v@.subrange(lo as int, hi as int),
            strip_start(s, p) == strip_start(v@.subrange(i as int, hi as int), p),
        decreases hi - i,
    {
        proof {
            let w = v@.subrange(i as int, hi as int);
            assert(w.drop_first() =~= v@.subrange(i + 1, hi as int));
            assert(p(w[0]));
        }
        i = i + 1;
    }
    let ghost a = v@.subrange(i as int, hi as int);
    assert(strip_start(a, p) == a);
    let mut j = hi;
    while j > i && v[j - 1] == c
        invariant
            lo <= i <= j <= hi <= v.len(),
            p == char_pred(c),
            a == v@.subrange(i as int, hi as int),
            strip_end(a, p) == strip_end(v@.subrange(i as int, j as int), p),
        decreases j,
    {
        proof {
            let w = v@.subrange(i as int, j as int);
            assert(w.drop_last() =~= v@.subrange(i as int, j - 1));
            assert(p(w.last()));
        }
        j = j - 1;
    }
    proof {
        let w = v@.subrange(i as int, j as int);
        assert(strip_end(w, p) == w);
    }
    (i, j)
}

/// The end of `v[..hi]` without its trailing `c` (`trim_end_matches(c)`).
pub fn strip_end_char(v: &Vec<char>, hi: usize, c: char) -> (r: usize)
    requires
        hi <= v.len(),
    ensures
        r <= hi,
        v@.subrange(0, r as int) == strip_end(v@.subrange(0, hi as int), char_pred(c)),
{
    let ghost p = char_pred(c);
    let mut j = hi;
    while j > 0 && v[j - 1] == c
        invariant
            j <= hi <= v.len(),
            p == char_pred(c),
            strip_end(v@.subrange(0, hi as int), p) == strip_end(v@.subrange(0, j as int), p),
        decreases j,
    {
        proof {
            let w = v@.subrange(0, j as int);
            assert(w.drop_last() =~= v@.subrange(0, j - 1));
            assert(p(w.last()));
        }
        j = j - 1;
    }
    proof {
        let w = v@.subrange(0, j as int);
        assert(strip_end(w, p) == w);
    }
    j
}

// ---------------------------------------------------------------------------
// Relative paths
// ---------------------------------------------------------------------------

/// Holds when `s[i..j]` is one of the `/`-separated segments of `s`.
pub open spec fn segment_at(s: Seq<char>, i: int, j: int) -> bool {
    &&& 0 <= i <= j <= s.len()
    &&& (i == 0 || s[i - 1] == '/')
    &&& (j == s.len() || s[j] == '/')
    &&& forall|k: int| i <= k < j ==> s[k] != '/'
}

/// Holds when a segment is empty, `.` or `..`.
pub open spec fn is_bad_segment(seg: Seq<char>) -> bool {
    seg.len() == 0 || seg == seq!['.'] || seg == seq!['.', '.']
}

/// Holds when some `/`-separated segment of `s` is empty, `.` or `..`.
pub open spec fn has_bad_segment(s: Seq<char>) -> bool {
    exists|i: int, j: int| #[trigger] segment_at(s, i, j) && is_bad_segment(s.subrange(i, j))
}

/// The relative path a file request names: trimmed, without leading and
/// trailing `/`; `None` when it holds an empty, `.` or `..` segment.
pub open spec fn relative_path_spec(path: Option<Seq<char>>) -> Option<Seq<char>> {
    match path {
        None => Some(Seq::empty()),
        Some(p) => {
            let t = trim_seq(p);
            let q = strip_end(strip_start(t, char_pred('/')), char_pred('/'));
            if q.len() == 0 {
                Some(Seq::empty())
            } else if has_bad_segment(q) {
                None
            } else {
                Some(q)
            }
        },
    }
}

/// Whether `v[lo..hi]` has an empty, `.` or `..` segment.
fn scan_bad_segment(v: &Vec<char>, lo: usize, hi: usize) -> (r: bool)
    requires
        lo <= hi <= v.len(),
    ensures
        r == has_bad_segment(v@.subrange(lo as int, hi as int)),
{
    let ghost s = v@.subrange(lo as int, hi as int);
    let mut start = lo;
    let mut i = lo;
    while i <= hi
        invariant
            lo <= start <= i <= hi,
            hi <= v.len(),
            s == v@.subrange(lo as int, hi as int),
            start == lo || (start <= hi && start - 1 >= lo && v@[start - 1] == '/'),
            start <= i,
            forall|k: int| start <= k < i && k < hi ==> v@[k] != '/',
            i <= hi ==> start <= i,
            // Every segment that ends before `start` is fine.
            forall|a: int, b: int|
                segment_at(s, a, b) && b + lo < start ==> !is_bad_segment(s.subrange(a, b)),
        decreases hi + 1 - i,
    {
        if i == hi || v[i] == '/' {
            let len = i - start;
            let bad = len == 0 || (len == 1 && v[start] == '.') || (len == 2 && v[start] == '.'
                && v[start + 1] == '.');
            proof {
                let a = start - lo;
                let b = i - lo;
                assert forall|k: int| a <= k < b implies s[k] != '/' by {
                    assert(s[k] == v@[k + lo]);
                }
                assert(segment_at(s, a as int, b as int));
                assert(s.subrange(a as int, b as int) =~= v@.subrange(start as int, i as int));
                let seg = s.subrange(a as int, b as int);
                if len == 1 {
                    assert(seg =~= seq![v@[start as int]]);
                    if v@[start as int] != '.' {
                        assert(seg[0] != seq!['.'][0]);
                    }
                    assert(seg != seq!['.', '.']);
                } else if len == 2 {
                    assert(seg =~= seq![v@[start as int], v@[start + 1]]);
                    if !(v@[start as int] == '.' && v@[start + 1] == '.') {
                        if v@[start as int] != '.' {
                            assert(seg[0] != seq!['.', '.'][0]);
                        } else {
                            assert(seg[1] != seq!['.', '.'][1]);
                        }
                    }
                    assert(seg != seq!['.']);
                } else if len > 2 {
                    assert(seg != seq!['.']);
                    assert(seg != seq!['.', '.']);
                }
                assert(bad == is_bad_segment(seg));
            }
            if bad {
                return true;
            }
            proof {
                // Segments ending at `i` start at `start` (the segment is unique).
                assert forall|a2: int, b2: int|
                    segment_at(s, a2, b2) && b2 + lo < i + 1 implies !is_bad_segment(
                    s.subrange(a2, b2),
                ) by {
                    if b2 + lo >= start {
                        // b2 == i - lo: no '/' in [start, i), so b2 is at i.
                        if b2 + lo < i {
                            assert(s[b2] == v@[b2 + lo]);
                        }
                        assert(b2 + lo == i);
                        // a2 == start - lo
                        if a2 + lo < start {
                            if start > lo {
                                assert(s[start - lo - 1] == v@[start - 1]);
                            }
                        }
                        if a2 + lo > start {
                            assert(s[a2 - 1] == v@[a2 - 1 + lo]);
                        }
                        assert(a2 + lo == start);
                    }
                }
            }
            if i == hi {
                proof {
                    assert forall|a2: int, b2: int|
                        #[trigger] segment_at(s, a2, b2) implies !is_bad_segment(
                        s.subrange(a2, b2),
                    ) by {
                        assert(b2 + lo < i + 1);
                    }
                }
                return false;
            }
            start = i + 1;
        }
        i = i + 1;
    }
    false
}

/// The relative path of a file request (see `relative_path_spec`); the
/// error is "invalid file path".
pub fn normalize_relative_path(path: Option<&str>) -> (r: ApiResult<String>)
    ensures
        match path {
            None => r matches Ok(s) && s@.len() == 0,
            Some(p) => match relative_path_spec(Some(p@)) {
                Some(q) => r matches Ok(s) && s@ == q,
                None => r matches Err(e) && is_bad_request(e, "invalid file path"@),
            },
        },
{
    match path {
        None => Ok(String::new()),
        Some(p) => {
            let t = trim(p);
            let v = chars_of(t.as_str());
            let (lo, hi) = strip_char_bounds(&v, 0, v.len(), '/');
            assert(v@.subrange(0, v@.len() as int) =~= v@);
            if lo == hi {
                return Ok(String::new());
            }
            if scan_bad_segment(&v, lo, hi) {
                return Err(ApiError::bad_request("invalid file path"));
            }
            Ok(string_of_range(&v, lo, hi))
        },
    }
}

/// A relative path that must not be empty ("file path is required").
pub fn normalize_required_path(path: &str) -> (r: ApiResult<String>)
    ensures
        match relative_path_spec(Some(path@)) {
            Some(q) => if q.len() == 0 {
                r matches Err(e) && is_bad_request(e, "file path is required"@)
            } else {
                r matches Ok(s) && s@ == q
            },
            None => r matches Err(e) && is_bad_request(e, "invalid file path"@),
        },
{
    let p = normalize_relative_path(Some(path))?;
    if p.as_str().is_empty() {
        return Err(ApiError::bad_request("file path is required"));
    }
    Ok(p)
}

/// Law: a non-empty normalized relative path neither starts nor ends with
/// `/` and has no empty, `.` or `..` segment, so it cannot leave the root it
/// is joined to. (The empty result stands for the root itself.)
pub proof fn law_relative_path_is_clean(path: Seq<char>)
    requires
        relative_path_spec(Some(path)) matches Some(q) && q.len() > 0,
    ensures
        ({
            let q = relative_path_spec(Some(path))->0;
            &&& q[0] != '/'
            &&& q.last() != '/'
            &&& !has_bad_segment(q)
        }),
{
    let t = trim_seq(path);
    let p = char_pred('/');
    let a = strip_start(t, p);
    let q = strip_end(a, p);
    crate::text::lemma_strip_start_is_suffix(t, p);
    crate::text::lemma_strip_end_is_prefix(a, p);
    assert(q[0] == a[0]);
}

/// Law: normalizing a normalized relative path gives it back unchanged,
/// when it has no surrounding whitespace (a path such as `" / a"` normalizes
/// to `" a"`, which trims further).
pub proof fn law_relative_path_is_stable(path: Seq<char>)
    requires
        relative_path_spec(Some(path)) matches Some(q) && trim_seq(q) == q,
    ensures
        relative_path_spec(Some(relative_path_spec(Some(path))->0)) == relative_path_spec(
            Some(path),
        ),
{
    let q = relative_path_spec(Some(path))->0;
    let p = char_pred('/');
    if q.len() > 0 {
        law_relative_path_is_clean(path);
        lemma_strip_nothing(q, p);
    } else {
        lemma_strip_nothing(q, p);
        lemma_strip_nothing(q, ws_pred());
    }
}

// ---------------------------------------------------------------------------
// Names, extensions and media types
// ---------------------------------------------------------------------------

/// `prefix` joined with `name` by one `/` (`name` alone under an empty prefix).
pub open spec fn joined_path(prefix: Seq<char>, name: Seq<char>) -> Seq<char> {
    if prefix.len() == 0 {
        name
    } else {
        strip_end(prefix, char_pred('/')) + seq!['/'] + name
    }
}

/// Joins a relative directory and a name with one `/`.
pub fn join_relative_path(prefix: &str, name: &str) -> (r: String)
    ensures
        r@ == joined_path(prefix@, name@),
{
    let v = chars_of(prefix);
    if v.len() == 0 {
        return String::from_str(name);
    }
    let end = strip_end_char(&v, v.len(), '/');
    assert(v@.subrange(0, v@.len() as int) =~= v@);
    let mut s = string_of_range(&v, 0, end);
    push_char(&mut s, '/');
    s.concat(name)
}

/// The directory part of a relative path: what precedes its last `/`.
pub open spec fn parent_path(path: Seq<char>) -> Option<Seq<char>> {
    let k = last_index(path, '/');
    if k >= 0 {
        Some(path.take(k))
    } else {
        None
    }
}

/// What precedes the last `/` of `path`, if it has one.
pub fn parent_relative_path(path: &str) -> (r: Option<String>)
    ensures
        crate::text::opt_view(r) == parent_path(path@),
{
    let v = chars_of(path);
    match rfind(&v, '/') {
        Some(k) => {
            let s = string_of_range(&v, 0, k);
            assert(v@.subrange(0, k as int) =~= v@.take(k as int));
            Some(s)
        },
        None => None,
    }
}

/// The last `/`-separated part of a path.
pub open spec fn last_segment(path: Seq<char>) -> Seq<char> {
    path.skip(last_index(path, '/') + 1)
}

/// The name a path ends with; "invalid file path" when it ends with `/` or
/// is empty.
pub fn file_name(path: &str) -> (r: ApiResult<String>)
    ensures
        last_segment(path@).len() > 0 ==> (r matches Ok(s) && s@ == last_segment(path@)),
        last_segment(path@).len() == 0 ==> (r matches Err(e) && is_bad_request(
            e,
            "invalid file path"@,
        )),
{
    let v = chars_of(path);
    proof {
        lemma_last_index(v@, '/');
    }
    let start = match rfind(&v, '/') {
        Some(k) => k + 1,
        None => 0,
    };
    assert(v@.subrange(start as int, v@.len() as int) =~= last_segment(path@));
    if start == v.len() {
        return Err(ApiError::bad_request("invalid file path"));
    }
    Ok(string_of_range(&v, start, v.len()))
}

/// Law: a name joined under a directory splits back into the two: the
/// parent of the joined path is the directory and its last segment is the
/// name, when the directory is non-empty without a trailing `/` and the name
/// is non-empty without `/`; a name joined under the empty directory has no
/// parent and is its own last segment.
pub proof fn law_join_then_split(prefix: Seq<char>, name: Seq<char>)
    requires
        prefix.len() > 0,
        prefix.last() != '/',
        name.len() > 0,
        forall|i: int| 0 <= i < name.len() ==> name[i] != '/',
    ensures
        parent_path(joined_path(prefix, name)) == Some(prefix),
        last_segment(joined_path(prefix, name)) == name,
        parent_path(joined_path(Seq::empty(), name)) is None,
        last_segment(joined_path(Seq::empty(), name)) == name,
{
    assert(strip_end(prefix, char_pred('/')) == prefix);
    let s = joined_path(prefix, name);
    assert(s == prefix + seq!['/'] + name);
    let n = prefix.len() as int;
    assert(s[n] == '/');
    lemma_last_index(s, '/');
    let k = last_index(s, '/');
    if k > n {
        assert(s[k] == name[k - n - 1]);
    }
    assert(k == n);
    assert(s.take(k) =~= prefix);
    assert(s.skip(k + 1) =~= name);
    lemma_last_index(name, '/');
    assert(last_index(name, '/') == -1);
    assert(name.skip(0) =~= name);
}

/// The extension of a file name: what follows its last `.`, in ASCII lower
/// case; `None` when there is no `.` or nothing follows it.
pub open spec fn extension_of(name: Seq<char>) -> Option<Seq<char>> {
    let k = last_index(name, '.');
    if k < 0 || k + 1 == name.len() {
        None
    } else {
        Some(lowered(name.skip(k + 1)))
    }
}

/// The lower-case extension of a file name.
pub fn file_extension(file_name: &str) -> (r: Option<String>)
    ensures
        crate::text::opt_view(r) == extension_of(file_name@),
{
    let v = chars_of(file_name);
    proof {
        lemma_last_index(v@, '.');
    }
    match rfind(&v, '.') {
        None => None,
        Some(k) => {
            if k + 1 == v.len() {
                return None;
            }
            let mut s = String::new();
            let mut i = k + 1;
            while i < v.len()
                invariant
                    k + 1 <= i <= v.len(),
                    s@ == lowered(v@.subrange(k + 1, i as int)),
                decreases v.len() - i,
            {
                push_char(&mut s, char_ascii_lower(v[i]));
                assert(s@ =~= lowered(v@.subrange(k + 1, i + 1)));
                i = i + 1;
            }
            assert(v@.subrange(k + 1, v@.len() as int) =~= v@.skip(k + 1));
            Some(s)
        },
    }
}

/// The media type the file manager serves for an extension.
pub open spec fn mime_for_extension(ext: Seq<char>) -> Option<Seq<char>> {
    if ext == "txt"@ || ext == "log"@ {
        Some("text/plain; charset=utf-8"@)
    } else if ext == "md"@ || ext == "markdown"@ {
        Some("text/markdown; charset=utf-8"@)
    } else if ext == "json"@ {
        Some("application/json; charset=utf-8"@)
    } else if ext == "csv"@ {
        Some("text/csv; charset=utf-8"@)
    } else if ext == "yaml"@ || ext == "yml"@ {
        Some("application/yaml; charset=utf-8"@)
    } else if ext == "html"@ || ext == "htm"@ {
        Some("text/html; charset=utf-8"@)
    } else if ext == "css"@ {
        Some("text/css; charset=utf-8"@)
    } else if ext == "js"@ || ext == "mjs"@ {
        Some("text/javascript; charset=utf-8"@)
    } else if ext == "jpg"@ || ext == "jpeg"@ {
        Some("image/jpeg"@)
    } else if ext == "png"@ {
        Some("image/png"@)
    } else if ext == "gif"@ {
        Some("image/gif"@)
    } else if ext == "webp"@ {
        Some("image/webp"@)
    } else if ext == "svg"@ {
        Some("image/svg+xml"@)
    } else if ext == "bmp"@ {
        Some("image/bmp"@)
    } else if ext == "pdf"@ {
        Some("application/pdf"@)
    } else if ext == "mp4"@ || ext == "m4v"@ {
        Some("video/mp4"@)
    } else if ext == "webm"@ {
        Some("video/webm"@)
    } else if ext == "ogv"@ {
        Some("video/ogg"@)
    } else if ext == "mov"@ {
        Some("video/quicktime"@)
    } else if ext == "mp3"@ {
        Some("audio/mpeg"@)
    } else if ext == "wav"@ {
        Some("audio/wav"@)
    } else if ext == "ogg"@ {
        Some("audio/ogg"@)
    } else if ext == "m4a"@ {
        Some("audio/mp4"@)
    } else if ext == "aac"@ {
        Some("audio/aac"@)
    } else if ext == "flac"@ {
        Some("audio/flac"@)
    } else {
        None
    }
}

fn mime_for_ext(e: &str) -> (r: Option<&'static str>)
    ensures
        match r {
            Some(m) => mime_for_extension(e@) == Some(m@),
            None => mime_for_extension(e@) is None,
        },
{
    if str_eq(e, "txt") || str_eq(e, "log") {
        Some("text/plain; charset=utf-8")
    } else if str_eq(e, "md") || str_eq(e, "markdown") {
        Some("text/markdown; charset=utf-8")
    } else if str_eq(e, "json") {
        Some("application/json; charset=utf-8")
    } else if str_eq(e, "csv") {
        Some("text/csv; charset=utf-8")
    } else if str_eq(e, "yaml") || str_eq(e, "yml") {
        Some("application/yaml; charset=utf-8")
    } else if str_eq(e, "html") || str_eq(e, "htm") {
        Some("text/html; charset=utf-8")
    } else if str_eq(e, "css") {
        Some("text/css; charset=utf-8")
    } else if str_eq(e, "js") || str_eq(e, "mjs") {
        Some("text/javascript; charset=utf-8")
    } else if str_eq(e, "jpg") || str_eq(e, "jpeg") {
        Some("image/jpeg")
    } else if str_eq(e, "png") {
        Some("image/png")
    } else if str_eq(e, "gif") {
        Some("image/gif")
    } else if str_eq(e, "webp") {
        Some("image/webp")
    } else if str_eq(e, "svg") {
        Some("image/svg+xml")
    } else if str_eq(e, "bmp") {
        Some("image/bmp")
    } else if str_eq(e, "pdf") {
        Some("application/pdf")
    } else if str_eq(e, "mp4") || str_eq(e, "m4v") {
        Some("video/mp4")
    } else if str_eq(e, "webm") {
        Some("video/webm")
    } else if str_eq(e, "ogv") {
        Some("video/ogg")
    } else if str_eq(e, "mov") {
        Some("video/quicktime")
    } else if str_eq(e, "mp3") {
        Some("audio/mpeg")
    } else if str_eq(e, "wav") {
        Some("audio/wav")
    } else if str_eq(e, "ogg") {
        Some("audio/ogg")
    } else if str_eq(e, "m4a") {
        Some("audio/mp4")
    } else if str_eq(e, "aac") {
        Some("audio/aac")
    } else if str_eq(e, "flac") {
        Some("audio/flac")
    } else {
        None
    }
}

/// The media type of a file, by its lower-case extension.
pub fn mime_type(file_name: &str) -> (r: Option<&'static str>)
    ensures
        match extension_of(file_name@) {
            Some(e) => match r {
                Some(m) => mime_for_extension(e) == Some(m@),
                None => mime_for_extension(e) is None,
            },
            None => r is None,
        },
{
    match file_extension(file_name) {
        Some(e) => mime_for_ext(e.as_str()),
        None => None,
    }
}

/// A character kept in a stored file name: ASCII letters and digits, `.`,
/// `-` and `_`; every other character becomes `_`.
pub open spec fn safe_name_char(c: char) -> char {
    if is_ascii_alphanumeric(c) || c == '.' || c == '-' || c == '_' {
        c
    } else {
        '_'
    }
}

pub open spec fn safe_name_chars(s: Seq<char>) -> Seq<char> {
    s.map_values(|c: char| safe_name_char(c))
}

fn map_safe_name(v: &Vec<char>, lo: usize, hi: usize) -> (s: String)
    requires
        lo <= hi <= v.len(),
    ensures
        s@ == safe_name_chars(v@.subrange(lo as int, hi as int)),
{
    let mut s = String::new();
    let mut i = lo;
    while i < hi
        invariant
            lo <= i <= hi <= v.len(),
            s@ == safe_name_chars(v@.subrange(lo as int, i as int)),
        decreases hi - i,
    {
        let c = v[i];
        let d = if char_is_ascii_alphanumeric(c) || c == '.' || c == '-' || c == '_' {
            c
        } else {
            '_'
        };
        push_char(&mut s, d);
        assert(s@ =~= safe_name_chars(v@.subrange(lo as int, i + 1)));
        i = i + 1;
    }
    s
}

/// The name a file is served or stored under: the trimmed name with unsafe
/// characters replaced by `_`; "file.bin" when that is empty, `.` or `..`.
pub open spec fn sanitized_file_name(name: Seq<char>) -> Seq<char> {
    let m = safe_name_chars(trim_seq(name));
    if m.len() == 0 || m == seq!['.'] || m == seq!['.', '.'] {
        "file.bin"@
    } else {
        m
    }
}

/// Sanitizes a file name for storage and for a `Content-Disposition` header.
pub fn sanitize_filename(file_name: &str) -> (r: String)
    ensures
        r@ == sanitized_file_name(file_name@),
{
    let t = trim(file_name);
    let v = chars_of(t.as_str());
    let m = map_safe_name(&v, 0, v.len());
    assert(v@.subrange(0, v@.len() as int) =~= v@);
    let mv = chars_of(m.as_str());
    let dot = mv.len() == 1 && mv[0] == '.';
    let dotdot = mv.len() == 2 && mv[0] == '.' && mv[1] == '.';
    proof {
        if mv@.len() == 1 {
            if !dot {
                assert(mv@[0] != seq!['.'][0]);
            }
            assert(mv@ != seq!['.', '.']);
            if dot {
                assert(mv@ =~= seq!['.']);
            }
        } else if mv@.len() == 2 {
            if !dotdot {
                if mv@[0] != '.' {
                    assert(mv@[0] != seq!['.', '.'][0]);
                } else {
                    assert(mv@[1] != seq!['.', '.'][1]);
                }
            } else {
                assert(mv@ =~= seq!['.', '.']);
            }
            assert(mv@ != seq!['.']);
        } else {
            assert(mv@ != seq!['.']);
            assert(mv@ != seq!['.', '.']);
        }
    }
    if mv.len() == 0 || dot || dotdot {
        String::from_str("file.bin")
    } else {
        m
    }
}

/// The characters a sanitized name is made of: ASCII letters and digits,
/// `.`, `-` and `_`.
pub open spec fn is_safe_name_char(c: char) -> bool {
    is_ascii_alphanumeric(c) || c == '.' || c == '-' || c == '_'
}

/// Law: a sanitized file name is never empty, `.` or `..`, holds only safe
/// characters, keeps the length of the trimmed name unless it fell back to
/// "file.bin", and sanitizing it again changes nothing.
pub proof fn law_sanitized_name_is_safe(name: Seq<char>)
    ensures
        ({
            let r = sanitized_file_name(name);
            &&& r.len() > 0
            &&& r != seq!['.']
            &&& r != seq!['.', '.']
            &&& forall|i: int| 0 <= i < r.len() ==> is_safe_name_char(#[trigger] r[i])
            &&& r != "file.bin"@ ==> r.len() == trim_seq(name).len()
            &&& sanitized_file_name(r) == r
        }),
{
    reveal_strlit("file.bin");
    let m = safe_name_chars(trim_seq(name));
    let r = sanitized_file_name(name);
    assert forall|i: int| 0 <= i < m.len() implies is_safe_name_char(#[trigger] m[i]) by {
        assert(m[i] == safe_name_char(trim_seq(name)[i]));
    }
    let fb = "file.bin"@;
    assert(fb.len() == 8);
    assert forall|i: int| 0 <= i < r.len() implies is_safe_name_char(#[trigger] r[i]) by {
        if r == fb {
            assert(fb =~= seq!['f', 'i', 'l', 'e', '.', 'b', 'i', 'n']);
        }
    }
    if r == fb {
        assert(r[0] != seq!['.'][0]);
        assert(r[0] != seq!['.', '.'][0]);
    }
    // A safe name has no surrounding whitespace and maps to itself.
    assert(r.len() > 0 ==> !is_whitespace(r[0]) && !is_whitespace(r.last()));
    lemma_strip_nothing(r, ws_pred());
    assert(trim_seq(r) == r);
    assert(safe_name_chars(r) =~= r);
}

/// The stored name of an uploaded file: unsafe characters replaced by `_`
/// (no trimming); "upload.bin" when the name is empty.
pub open spec fn sanitized_upload_name(name: Seq<char>) -> Seq<char> {
    if name.len() == 0 {
        "upload.bin"@
    } else {
        safe_name_chars(name)
    }
}

/// Sanitizes the name of an uploaded file.
pub fn sanitize_upload_filename(file_name: &str) -> (r: String)
    ensures
        r@ == sanitized_upload_name(file_name@),
{
    let v = chars_of(file_name);
    if v.len() == 0 {
        return String::from_str("upload.bin");
    }
    assert(v@.subrange(0, v@.len() as int) =~= v@);
    map_safe_name(&v, 0, v.len())
}

/// A character that would break a `Content-Disposition` file name: `/`,
/// `\`, CR, LF, TAB and `"` become `_`.
pub open spec fn header_safe_char(c: char) -> char {
    if c == '/' || c == '\\' || c == '\r' || c == '\n' || c == '\t' || c == '"' {
        '_'
    } else {
        c
    }
}

/// The download name of a command artifact: header-breaking characters
/// replaced by `_`; "download" when the result is blank.
pub open spec fn sanitized_download_name(name: Seq<char>) -> Seq<char> {
    let m = name.map_values(|c: char| header_safe_char(c));
    if trim_seq(m).len() == 0 {
        "download"@
    } else {
        m
    }
}

/// Sanitizes the download name of a command artifact.
pub fn sanitize_download_name(value: &str) -> (r: String)
    ensures
        r@ == sanitized_download_name(value@),
{
    let v = chars_of(value);
    let mut s = String::new();
    let mut i: usize = 0;
    while i < v.len()
        invariant
            i <= v.len(),
            s@ == v@.subrange(0, i as int).map_values(|c: char| header_safe_char(c)),
        decreases v.len() - i,
    {
        let c = v[i];
        let d = if c == '/' || c == '\\' || c == '\r' || c == '\n' || c == '\t' || c == '"' {
            '_'
        } else {
            c
        };
        push_char(&mut s, d);
        assert(s@ =~= v@.subrange(0, i + 1).map_values(|c: char| header_safe_char(c)));
        i = i + 1;
    }
    assert(v@.subrange(0, v@.len() as int) =~= v@);
    if is_blank(s.as_str()) {
        String::from_str("download")
    } else {
        s
    }
}

/// Holds when an object key only marks a folder: it ends with `/` or with
/// `/.keep`.
pub open spec fn is_folder_marker(key: Seq<char>) -> bool {
    (key.len() > 0 && key.last() == '/') || (key.len() >= 6 && key.skip(key.len() - 6)
        == "/.keep"@)
}

/// Whether an object key only marks a folder.
pub fn is_folder_marker_object(object_key: &str) -> (b: bool)
    ensures
        b == is_folder_marker(object_key@),
{
    let v = chars_of(object_key);
    let n = v.len();
    if n > 0 && v[n - 1] == '/' {
        return true;
    }
    if n < 6 {
        return false;
    }
    let tail = string_of_range(&v, n - 6, n);
    assert(v@.subrange(n - 6, n as int) =~= v@.skip(n - 6));
    str_eq(tail.as_str(), "/.keep")
}

/// The object key of `filename` under an optional prefix: the trimmed
/// prefix without trailing `/`, a `/`, then the file name.
pub open spec fn object_key(prefix: Option<Seq<char>>, filename: Seq<char>) -> Seq<char> {
    match prefix {
        Some(p) => if trim_seq(p).len() == 0 {
            filename
        } else {
            strip_end(trim_seq(p), char_pred('/')) + seq!['/'] + filename
        },
        None => filename,
    }
}

/// Joins an optional storage prefix and a file name into an object key.
pub fn join_object_key(prefix: Option<&str>, filename: &str) -> (r: String)
    ensures
        r@ == object_key(
            match prefix {
                Some(p) => Some(p@),
                None => None,
            },
            filename@,
        ),
{
    match prefix {
        None => String::from_str(filename),
        Some(p) => {
            let t = trim(p);
            let v = chars_of(t.as_str());
            if v.len() == 0 {
                return String::from_str(filename);
            }
            let end = strip_end_char(&v, v.len(), '/');
            assert(v@.subrange(0, v@.len() as int) =~= v@);
            let mut s = string_of_range(&v, 0, end);
            push_char(&mut s, '/');
            s.concat(filename)
        },
    }
}

// ---------------------------------------------------------------------------
// Percent-encoding
// ---------------------------------------------------------------------------

/// Bytes a URL path keeps as they are: ASCII letters and digits, `-`, `_`,
/// `.` and `~`.
pub open spec fn is_unreserved(b: u8) -> bool {
    (0x30 <= b <= 0x39) || (0x41 <= b <= 0x5A) || (0x61 <= b <= 0x7A) || b == 0x2D || b == 0x5F
        || b == 0x2E || b == 0x7E
}

/// The upper-case hexadecimal digit of `d < 16`.
pub open spec fn hex_char(d: u8) -> char {
    if d < 10 {
        ((d + 0x30) as u32) as char
    } else {
        ((d + 0x37) as u32) as char
    }
}

/// How one byte is written: itself when unreserved (or `/` when `keep_slash`),
/// otherwise `%` and two upper-case hexadecimal digits.
pub open spec fn encode_byte(b: u8, keep_slash: bool) -> Seq<char> {
    if is_unreserved(b) || (keep_slash && b == 0x2F) {
        seq![(b as u32) as char]
    } else {
        seq!['%', hex_char(b / 16), hex_char(b % 16)]
    }
}

/// The percent-encoding of `bytes`.
pub open spec fn percent_encoded(bytes: Seq<u8>, keep_slash: bool) -> Seq<char>
    decreases bytes.len(),
{
    if bytes.len() == 0 {
        Seq::empty()
    } else {
        percent_encoded(bytes.drop_last(), keep_slash) + encode_byte(bytes.last(), keep_slash)
    }
}

fn hex_digit(d: u8) -> (c: char)
    requires
        d < 16,
    ensures
        c == hex_char(d),
{
    if d < 10 {
        char_from_ascii((d + 0x30) as u32)
    } else {
        char_from_ascii((d + 0x37) as u32)
    }
}

fn encode_bytes(bytes: &[u8], keep_slash: bool) -> (s: String)
    ensures
        s@ == percent_encoded(bytes@, keep_slash),
{
    let mut s = String::new();
    let mut i: usize = 0;
    while i < bytes.len()
        invariant
            i <= bytes@.len(),
            s@ == percent_encoded(bytes@.take(i as int), keep_slash),
        decreases bytes.len() - i,
    {
        let b = bytes[i];
        let keep = (0x30 <= b && b <= 0x39) || (0x41 <= b && b <= 0x5A) || (0x61 <= b && b <= 0x7A)
            || b == 0x2D || b == 0x5F || b == 0x2E || b == 0x7E || (keep_slash && b == 0x2F);
        if keep {
            push_char(&mut s, char_from_ascii(b as u32));
        } else {
            push_char(&mut s, '%');
            push_char(&mut s, hex_digit(b / 16));
            push_char(&mut s, hex_digit(b % 16));
        }
        assert(bytes@.take(i + 1).drop_last() =~= bytes@.take(i as int));
        assert(s@ =~= percent_encoded(bytes@.take(i + 1), keep_slash));
        i = i + 1;
    }
    assert(bytes@.take(bytes@.len() as int) =~= bytes@);
    s
}

/// Percent-encodes one path segment, byte by byte of its UTF-8 form.
pub fn percent_encode_segment(segment: &str) -> (r: String)
    ensures
        r@ == percent_encoded(vstd::utf8::encode_utf8(segment@), false),
{
    encode_bytes(segment.as_bytes(), false)
}

/// An upper-case hexadecimal digit.
pub open spec fn is_upper_hex_char(c: char) -> bool {
    ('0' <= c && c <= '9') || ('A' <= c && c <= 'F')
}

/// A character an encoding keeps as it is: ASCII letters and digits, `-`,
/// `_`, `.` and `~` (and `/` when slashes are kept).
pub open spec fn is_kept_char(c: char, keep_slash: bool) -> bool {
    is_ascii_alphanumeric(c) || c == '-' || c == '_' || c == '.' || c == '~' || (keep_slash && c
        == '/')
}

/// Holds when `s` is made of kept characters and `%XX` escapes with two
/// upper-case hexadecimal digits.
pub open spec fn well_encoded(s: Seq<char>, keep_slash: bool) -> bool
    decreases s.len(),
{
    if s.len() == 0 {
        true
    } else if s[0] == '%' {
        s.len() >= 3 && is_upper_hex_char(s[1]) && is_upper_hex_char(s[2]) && well_encoded(
            s.skip(3),
            keep_slash,
        )
    } else {
        is_kept_char(s[0], keep_slash) && well_encoded(s.skip(1), keep_slash)
    }
}

/// The encoding of one byte, put before a well-encoded text, stays well encoded.
pub proof fn lemma_encode_byte_well(b: u8, keep_slash: bool, rest: Seq<char>)
    requires
        well_encoded(rest, keep_slash),
    ensures
        well_encoded(encode_byte(b, keep_slash) + rest, keep_slash),
{
    let s = encode_byte(b, keep_slash) + rest;
    if is_unreserved(b) || (keep_slash && b == 0x2F) {
        let c = (b as u32) as char;
        assert(c as u32 == b as u32);
        assert(s[0] == c);
        assert(s.skip(1) =~= rest);
    } else {
        let hi = b / 16;
        let lo = b % 16;
        assert(((hi + 0x30) as u32) as char as u32 == (hi + 0x30) as u32);
        assert(((hi + 0x37) as u32) as char as u32 == (hi + 0x37) as u32);
        assert(((lo + 0x30) as u32) as char as u32 == (lo + 0x30) as u32);
        assert(((lo + 0x37) as u32) as char as u32 == (lo + 0x37) as u32);
        assert(s[0] == '%');
        assert(s[1] == hex_char(hi));
        assert(s[2] == hex_char(lo));
        assert(s.skip(3) =~= rest);
    }
}

/// Law: a percent-encoding holds only kept characters and `%XX` escapes
/// with upper-case hexadecimal digits.
pub proof fn law_percent_encoding_is_well_formed(bytes: Seq<u8>, keep_slash: bool)
    ensures
        well_encoded(percent_encoded(bytes, keep_slash), keep_slash),
    decreases bytes.len(),
{
    if bytes.len() > 0 {
        lemma_encoded_first(bytes, keep_slash);
        law_percent_encoding_is_well_formed(bytes.drop_first(), keep_slash);
        lemma_encode_byte_well(bytes[0], keep_slash, percent_encoded(bytes.drop_first(), keep_slash));
    }
}

/// The value of a hexadecimal digit.
pub open spec fn hex_value(c: char) -> int {
    if '0' <= c <= '9' {
        (c as int) - 0x30
    } else if 'A' <= c <= 'F' {
        (c as int) - 0x37
    } else if 'a' <= c <= 'f' {
        (c as int) - 0x57
    } else {
        0
    }
}

/// Percent-decoding: `%` and two hexadecimal digits give one byte; any other
/// character gives its own code (for the ASCII characters an encoding holds).
pub open spec fn percent_decoded(s: Seq<char>) -> Seq<u8>
    decreases s.len(),
{
    if s.len() == 0 {
        Seq::empty()
    } else if s[0] == '%' && s.len() >= 3 {
        seq![(hex_value(s[1]) * 16 + hex_value(s[2])) as u8] + percent_decoded(s.skip(3))
    } else {
        seq![(s[0] as u32) as u8] + percent_decoded(s.skip(1))
    }
}

/// How the encoding of a non-empty byte sequence begins.
pub proof fn lemma_encoded_first(bytes: Seq<u8>, keep_slash: bool)
    requires
        bytes.len() > 0,
    ensures
        percent_encoded(bytes, keep_slash) == encode_byte(bytes[0], keep_slash) + percent_encoded(
            bytes.drop_first(),
            keep_slash,
        ),
    decreases bytes.len(),
{
    if bytes.len() == 1 {
        assert(bytes.drop_last() =~= Seq::<u8>::empty());
        assert(bytes.drop_first() =~= Seq::<u8>::empty());
        assert(percent_encoded(bytes.drop_last(), keep_slash) =~= Seq::<char>::empty());
        assert(bytes.last() == bytes[0]);
        assert(percent_encoded(bytes, keep_slash) =~= encode_byte(bytes[0], keep_slash));
        assert(percent_encoded(bytes.drop_first(), keep_slash) =~= Seq::<char>::empty());
    } else {
        let init = bytes.drop_last();
        lemma_encoded_first(init, keep_slash);
        assert(init.drop_first() =~= bytes.drop_first().drop_last());
        assert(bytes.drop_first().last() == bytes.last());
        assert(percent_encoded(bytes, keep_slash) =~= encode_byte(bytes[0], keep_slash)
            + percent_encoded(bytes.drop_first(), keep_slash));
    }
}

/// Decoding the encoding of one byte gives that byte back.
pub proof fn lemma_decode_byte(b: u8, keep_slash: bool, rest: Seq<char>)
    ensures
        percent_decoded(encode_byte(b, keep_slash) + rest) == seq![b] + percent_decoded(rest),
{
    let e = encode_byte(b, keep_slash);
    let s = e + rest;
    if is_unreserved(b) || (keep_slash && b == 0x2F) {
        let c = (b as u32) as char;
        assert(c as u32 == b as u32);
        assert(s[0] == c);
        assert(c != '%');
        assert(s.skip(1) =~= rest);
        assert((c as u32) as u8 == b);
    } else {
        let hi = b / 16;
        let lo = b % 16;
        assert(hi < 16 && lo < 16);
        assert(hex_value(hex_char(hi)) == hi as int);
        assert(hex_value(hex_char(lo)) == lo as int);
        assert(s[0] == '%');
        assert(s[1] == hex_char(hi));
        assert(s[2] == hex_char(lo));
        assert(s.skip(3) =~= rest);
        assert(hi as int * 16 + lo as int == b as int) by (nonlinear_arith)
            requires
                hi == b / 16,
                lo == b % 16,
        ;
    }
}

/// Law: percent-decoding gives back exactly the bytes that were encoded, so
/// the encoding loses nothing and two different names never share a URL.
pub proof fn law_percent_decode_inverts_encode(bytes: Seq<u8>, keep_slash: bool)
    ensures
        percent_decoded(percent_encoded(bytes, keep_slash)) == bytes,
    decreases bytes.len(),
{
    if bytes.len() > 0 {
        lemma_encoded_first(bytes, keep_slash);
        lemma_decode_byte(bytes[0], keep_slash, percent_encoded(bytes.drop_first(), keep_slash));
        law_percent_decode_inverts_encode(bytes.drop_first(), keep_slash);
        assert(seq![bytes[0]] + bytes.drop_first() =~= bytes);
    }
}

// ---------------------------------------------------------------------------
// File roots
// ---------------------------------------------------------------------------

/// A configured root of the file manager.
#[derive(Debug)]
pub struct FileRootRecord {
    pub key: String,
    pub name: String,
    pub url_path: String,
    pub local_root: String,
    pub enabled: bool,
}

/// The public URL of a file: the root's URL path, then `/` and the relative
/// path with each segment percent-encoded (the `/` between them kept).
pub open spec fn public_url_spec(url_path: Seq<char>, relative: Seq<char>) -> Seq<char> {
    if relative.len() == 0 {
        url_path
    } else {
        strip_end(url_path, char_pred('/')) + seq!['/'] + percent_encoded(
            vstd::utf8::encode_utf8(relative),
            true,
        )
    }
}

/// The public URL of a file under a root.
pub fn public_url(root: &FileRootRecord, relative: &str) -> (r: String)
    ensures
        r@ == public_url_spec(root.url_path@, relative@),
{
    if relative.is_empty() {
        return root.url_path.clone();
    }
    let v = chars_of(root.url_path.as_str());
    let end = strip_end_char(&v, v.len(), '/');
    assert(v@.subrange(0, v@.len() as int) =~= v@);
    let mut s = string_of_range(&v, 0, end);
    push_char(&mut s, '/');
    let encoded = encode_bytes(relative.as_bytes(), true);
    s.concat(encoded.as_str())
}

/// The checks a configured root passes: its fields trimmed (the URL path
/// also without trailing `/`), none empty, and the URL path absolute.
pub open spec fn root_problem(root: FileRootRecord) -> Option<Seq<char>> {
    let url = strip_end(trim_seq(root.url_path@), char_pred('/'));
    if trim_seq(root.key@).len() == 0 || trim_seq(root.name@).len() == 0 || url.len() == 0
        || trim_seq(root.local_root@).len() == 0 {
        Some("invalid file root configuration"@)
    } else if url[0] != '/' {
        Some("file root url_path must start with /"@)
    } else {
        None
    }
}

/// Normalizes a configured root (see `root_problem`).
pub fn normalize_root(root: FileRootRecord) -> (r: ApiResult<FileRootRecord>)
    ensures
        match root_problem(root) {
            Some(m) => r matches Err(e) && is_bad_request(e, m),
            None => r matches Ok(n) && {
                &&& n.key@ == trim_seq(root.key@)
                &&& n.name@ == trim_seq(root.name@)
                &&& n.url_path@ == strip_end(trim_seq(root.url_path@), char_pred('/'))
                &&& n.local_root@ == trim_seq(root.local_root@)
                &&& n.enabled == root.enabled
            },
        },
{
    let key = trim(root.key.as_str());
    let name = trim(root.name.as_str());
    let t = trim(root.url_path.as_str());
    let v = chars_of(t.as_str());
    let end = strip_end_char(&v, v.len(), '/');
    assert(v@.subrange(0, v@.len() as int) =~= v@);
    let url_path = string_of_range(&v, 0, end);
    let local_root = trim(root.local_root.as_str());
    if key.as_str().is_empty() || name.as_str().is_empty() || end == 0 || local_root.as_str().is_empty() {
        return Err(ApiError::bad_request("invalid file root configuration"));
    }
    if v[0] != '/' {
        return Err(ApiError::bad_request("file root url_path must start with /"));
    }
    Ok(FileRootRecord { key, name, url_path, local_root, enabled: root.enabled })
}


/// The configured roots that are enabled, in order.
pub open spec fn enabled_roots_of(s: Seq<FileRootRecord>) -> Seq<FileRootRecord>
    decreases s.len(),
{
    if s.len() == 0 {
        s
    } else if s.last().enabled {
        enabled_roots_of(s.drop_last()).push(s.last())
    } else {
        enabled_roots_of(s.drop_last())
    }
}

/// The enabled roots of a concatenation are those of each part.
pub proof fn lemma_enabled_roots_append(a: Seq<FileRootRecord>, b: Seq<FileRootRecord>)
    ensures
        enabled_roots_of(a + b) == enabled_roots_of(a) + enabled_roots_of(b),
    decreases b.len(),
{
    if b.len() == 0 {
        assert(a + b =~= a);
        assert(enabled_roots_of(a) + enabled_roots_of(b) =~= enabled_roots_of(a));
    } else {
        lemma_enabled_roots_append(a, b.drop_last());
        assert((a + b).drop_last() =~= a + b.drop_last());
        assert((a + b).last() == b.last());
        if b.last().enabled {
            assert(enabled_roots_of(a) + enabled_roots_of(b) =~= (enabled_roots_of(a)
                + enabled_roots_of(b.drop_last())).push(b.last()));
        }
    }
}

/// The problem of the first root of `s` that is refused, if one is.
pub open spec fn first_root_problem(s: Seq<FileRootRecord>) -> Option<Seq<char>>
    decreases s.len(),
{
    if s.len() == 0 {
        None
    } else {
        match first_root_problem(s.drop_last()) {
            Some(m) => Some(m),
            None => root_problem(s.last()),
        }
    }
}

/// No root is refused exactly when none of them has a problem.
pub proof fn lemma_first_root_problem(s: Seq<FileRootRecord>)
    ensures
        first_root_problem(s) is None <==> forall|i: int|
            0 <= i < s.len() ==> root_problem(#[trigger] s[i]) is None,
    decreases s.len(),
{
    if s.len() > 0 {
        lemma_first_root_problem(s.drop_last());
        if first_root_problem(s) is None {
            assert forall|i: int| 0 <= i < s.len() implies root_problem(#[trigger] s[i]) is None by {
                if i < s.len() - 1 {
                    assert(s[i] == s.drop_last()[i]);
                }
            }
        } else if forall|i: int| 0 <= i < s.len() ==> root_problem(#[trigger] s[i]) is None {
            assert forall|i: int| 0 <= i < s.drop_last().len() implies root_problem(
                #[trigger] s.drop_last()[i],
            ) is None by {
                assert(s.drop_last()[i] == s[i]);
            }
            assert(root_problem(s[s.len() - 1]) is None);
        }
    }
}

/// The first problem of a concatenation is found in its first part first.
pub proof fn lemma_first_root_problem_append(a: Seq<FileRootRecord>, b: Seq<FileRootRecord>)
    ensures
        first_root_problem(a + b) == match first_root_problem(a) {
            Some(m) => Some(m),
            None => first_root_problem(b),
        },
    decreases b.len(),
{
    if b.len() == 0 {
        assert(a + b =~= a);
    } else {
        lemma_first_root_problem_append(a, b.drop_last());
        assert((a + b).drop_last() =~= a + b.drop_last());
        assert((a + b).last() == b.last());
    }
}

/// Holds when `n` is `src` as `normalize_root` gives it.
pub open spec fn normalized_root(n: FileRootRecord, src: FileRootRecord) -> bool {
    &&& n.key@ == trim_seq(src.key@)
    &&& n.name@ == trim_seq(src.name@)
    &&& n.url_path@ == strip_end(trim_seq(src.url_path@), char_pred('/'))
    &&& n.local_root@ == trim_seq(src.local_root@)
    &&& n.enabled == src.enabled
}

/// A copy of a configured root.
fn copy_root(r: &FileRootRecord) -> (c: FileRootRecord)
    ensures
        c == *r,
{
    FileRootRecord {
        key: r.key.clone(),
        name: r.name.clone(),
        url_path: r.url_path.clone(),
        local_root: r.local_root.clone(),
        enabled: r.enabled,
    }
}

/// The roots the file manager offers: every enabled configured root, in
/// order, normalized; the first enabled one that is refused fails the list.
#[verifier::rlimit(60)]
pub fn enabled_roots(roots: Vec<FileRootRecord>) -> (r: ApiResult<Vec<FileRootRecord>>)
    ensures
        match r {
            Ok(v) => {
                let en = enabled_roots_of(roots@);
                &&& v@.len() == en.len()
                &&& forall|i: int|
                    0 <= i < en.len() ==> root_problem(#[trigger] en[i]) is None && normalized_root(
                        v@[i],
                        en[i],
                    )
            },
            Err(e) => first_root_problem(enabled_roots_of(roots@)) matches Some(m) && is_bad_request(
                e,
                m,
            ),
        },
{
    let mut out: Vec<FileRootRecord> = Vec::new();
    let ghost all = roots@;
    let mut taken: usize = 0;
    assert(all.take(0) =~= Seq::<FileRootRecord>::empty());
    while taken < roots.len()
        invariant
            taken <= all.len(),
            all == roots@,
            out@.len() == enabled_roots_of(all.take(taken as int)).len(),
            forall|i: int|
                0 <= i < enabled_roots_of(all.take(taken as int)).len() ==> root_problem(
                    #[trigger] enabled_roots_of(all.take(taken as int))[i],
                ) is None && normalized_root(out@[i], enabled_roots_of(all.take(taken as int))[i]),
        decreases roots.len() - taken,
    {
        let ghost before = enabled_roots_of(all.take(taken as int));
        let root = copy_root(&roots[taken]);
        proof {
            assert(all.take(taken + 1).drop_last() =~= all.take(taken as int));
            assert(all.take(taken + 1).last() == root);
        }
        if root.enabled {
            let ghost src = root;
            match normalize_root(root) {
                Ok(n) => {
                    let ghost old_out = out@;
                    out.push(n);
                    proof {
                        let now = enabled_roots_of(all.take(taken + 1));
                        assert(now == before.push(src));
                        assert forall|i: int| 0 <= i < now.len() implies root_problem(
                            #[trigger] now[i],
                        ) is None && normalized_root(out@[i], now[i]) by {
                            if i < before.len() {
                                assert(out@[i] == old_out[i]);
                                assert(now[i] == before[i]);
                            }
                        }
                    }
                },
                Err(e) => {
                    proof {
                        let now = enabled_roots_of(all.take(taken + 1));
                        assert(now == before.push(src));
                        assert(all =~= all.take(taken + 1) + all.skip(taken + 1));
                        lemma_enabled_roots_append(all.take(taken + 1), all.skip(taken + 1));
                        assert forall|j: int| 0 <= j < before.len() implies root_problem(
                            #[trigger] before[j],
                        ) is None by {}
                        lemma_first_root_problem(before);
                        assert(now.drop_last() =~= before);
                        lemma_first_root_problem_append(now, enabled_roots_of(all.skip(taken + 1)));
                        assert(first_root_problem(now) == root_problem(src));
                    }
                    return Err(e);
                },
            }
        }
        taken = taken + 1;
    }
    proof {
        assert(all.take(taken as int) =~= all);
    }
    Ok(out)
}

/// The root with key `key` among `roots` (the first one that has it), or
/// "file root not found".
pub fn find_root(roots: Vec<FileRootRecord>, key: &str) -> (r: ApiResult<FileRootRecord>)
    ensures
        match r {
            Ok(root) => exists|i: int|
                0 <= i < roots@.len() && root == roots@[i] && root.key@ == key@ && forall|j: int|
                    0 <= j < i ==> (#[trigger] roots@[j]).key@ != key@,
            Err(e) => (forall|j: int| 0 <= j < roots@.len() ==> (#[trigger] roots@[j]).key@ != key@)
                && is_bad_request(e, "file root not found"@),
        },
{
    let mut i: usize = 0;
    while i < roots.len()
        invariant
            i <= roots@.len(),
            forall|j: int| 0 <= j < i ==> (#[trigger] roots@[j]).key@ != key@,
        decreases roots.len() - i,
    {
        if str_eq(roots[i].key.as_str(), key) {
            let found = copy_root(&roots[i]);
            assert(found == roots@[i as int]);
            return Ok(found);
        }
        i = i + 1;
    }
    Err(ApiError::bad_request("file root not found"))
}


/// A file or directory of the file manager as the API shows it.
#[derive(Debug)]
pub struct ManagedFileRecord {
    pub name: String,
    pub path: String,
    pub url: String,
    pub is_dir: bool,
    pub extension: Option<String>,
    pub mime_type: Option<String>,
    pub size_bytes: i64,
    pub updated_at: Option<String>,
}

/// The media type of the file at `path`, by its extension.
pub open spec fn path_mime(path: Seq<char>) -> Option<Seq<char>> {
    match extension_of(path) {
        Some(e) => mime_for_extension(e),
        None => None,
    }
}

/// The record of the entry `name` at the relative path `relative` under
/// `root`: plain files carry their extension, media type and size (which
/// saturates at `i64::MAX`); directories and other entries carry none and
/// size 0.
pub fn file_record(
    root: &FileRootRecord,
    relative: &str,
    name: &str,
    is_dir: bool,
    is_file: bool,
    len: u64,
    updated_at: Option<String>,
) -> (r: ManagedFileRecord)
    ensures
        r.name@ == name@,
        r.path@ == relative@,
        r.url@ == public_url_spec(root.url_path@, relative@),
        r.is_dir == is_dir,
        crate::text::opt_view(r.extension) == if is_file {
            extension_of(relative@)
        } else {
            None
        },
        crate::text::opt_view(r.mime_type) == if is_file {
            path_mime(relative@)
        } else {
            None
        },
        r.size_bytes == if !is_file {
            0
        } else if len <= i64::MAX as u64 {
            len as int
        } else {
            i64::MAX as int
        },
        r.updated_at == updated_at,
{
    let (extension, mime, size_bytes) = if is_file {
        let mime = match mime_type(relative) {
            Some(m) => Some(String::from_str(m)),
            None => None,
        };
        let size: i64 = if len <= 9223372036854775807u64 {
            len as i64
        } else {
            i64::MAX
        };
        (file_extension(relative), mime, size)
    } else {
        (None, None, 0i64)
    };
    ManagedFileRecord {
        name: String::from_str(name),
        path: String::from_str(relative),
        url: public_url(root, relative),
        is_dir,
        extension,
        mime_type: mime,
        size_bytes,
        updated_at,
    }
}

} // verus!
