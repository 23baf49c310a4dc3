use vstd::prelude::*;

use crate::numbers::{parse_u64, u64_text_value};
use crate::pagination::{clamp_or_default, page, page_number};
use crate::text::{
    ascii_lowercase, contains_seq, contains_text, lemma_split_on_len, lowered, split_char,
    split_on, str_eq, trim, trim_seq, views,
};

verus! {

/// The query of the process list.
#[derive(Debug)]
pub struct ProcessQueryParams {
    pub page: Option<u64>,
    pub page_size: Option<u64>,
    pub keyword: Option<String>,
    pub sort: Option<String>,
    pub order: Option<String>,
}

/// The column that the process list is ordered by.
#[derive(Clone, Copy, Debug, PartialEq, Eq, Structural)]
pub enum ProcessSort {
    Cpu,
    Memory,
    VirtualMemory,
    Pid,
    Name,
    RunTime,
}

/// The process page size: the requested one clamped to 10..=100, 20 when
/// absent.
pub open spec fn process_page_size_number(requested: Option<u64>) -> u64 {
    let v = match requested {
        Some(v) => v,
        None => 20,
    };
    if v < 10 {
        10
    } else if v > 100 {
        100
    } else {
        v
    }
}

/// The Unicode lower-case form of `s`, as `str::to_lowercase` gives it.
pub uninterp spec fn unicode_lowercase(s: Seq<char>) -> Seq<char>;

/// `str::to_lowercase` of std. Trusted: the result is `unicode_lowercase`
/// of the text.
#[verifier::external_body]
fn to_lowercase(s: &str) -> (r: String)
    ensures
        r@ == unicode_lowercase(s@),
{
    s.to_lowercase()
}

/// The keyword that a process query filters by: trimmed, and lower-cased;
/// none when absent or blank.
pub open spec fn process_keyword(keyword: Option<Seq<char>>) -> Option<Seq<char>> {
    match keyword {
        Some(k) => if trim_seq(k).len() > 0 {
            Some(unicode_lowercase(trim_seq(k)))
        } else {
            None
        },
        None => None,
    }
}

/// The column named by a sort parameter; the CPU usage by default.
pub open spec fn process_sort_of(sort: Option<Seq<char>>) -> ProcessSort {
    match sort {
        Some(s) => if s == "memory"@ {
            ProcessSort::Memory
        } else if s == "virtual_memory"@ {
            ProcessSort::VirtualMemory
        } else if s == "pid"@ {
            ProcessSort::Pid
        } else if s == "name"@ {
            ProcessSort::Name
        } else if s == "run_time"@ {
            ProcessSort::RunTime
        } else {
            ProcessSort::Cpu
        },
        None => ProcessSort::Cpu,
    }
}

/// The words a process query may sort by.
pub open spec fn sort_word(s: Seq<char>) -> bool {
    s == "memory"@ || s == "virtual_memory"@ || s == "pid"@ || s == "name"@ || s == "run_time"@
}

/// Law: each sort word orders the process list by its own column —
/// "memory" by memory, "virtual_memory" by virtual memory, "pid" by process
/// id, "name" by name, "run_time" by run time — and any other word, or no
/// word, by CPU usage; no two words share a column.
pub proof fn law_sort_words_pick_their_columns(other: Seq<char>)
    ensures
        process_sort_of(Some("memory"@)) == ProcessSort::Memory,
        process_sort_of(Some("virtual_memory"@)) == ProcessSort::VirtualMemory,
        process_sort_of(Some("pid"@)) == ProcessSort::Pid,
        process_sort_of(Some("name"@)) == ProcessSort::Name,
        process_sort_of(Some("run_time"@)) == ProcessSort::RunTime,
        process_sort_of(None) == ProcessSort::Cpu,
        !sort_word(other) ==> process_sort_of(Some(other)) == ProcessSort::Cpu,
{
    reveal_strlit("memory");
    reveal_strlit("virtual_memory");
    reveal_strlit("pid");
    reveal_strlit("name");
    reveal_strlit("run_time");
    assert("memory"@.len() == 6);
    assert("virtual_memory"@.len() == 14);
    assert("pid"@.len() == 3);
    assert("name"@.len() == 4);
    assert("run_time"@.len() == 8);
}

impl ProcessQueryParams {
    pub fn page(&self) -> (p: u64)
        ensures
            p == page_number(self.page),
            p >= 1,
    {
        page(self.page)
    }

    pub fn page_size(&self) -> (s: u64)
        ensures
            s == process_page_size_number(self.page_size),
            10 <= s <= 100,
    {
        clamp_or_default(self.page_size, 20, 10, 100)
    }

    /// The lower-cased keyword to filter by, if any.
    pub fn keyword_filter(&self) -> (r: Option<String>)
        ensures
            match r {
                Some(k) => process_keyword(
                    match self.keyword {
                        Some(s) => Some(s@),
                        None => None,
                    },
                ) == Some(k@),
                None => process_keyword(
                    match self.keyword {
                        Some(s) => Some(s@),
                        None => None,
                    },
                ) is None,
            },
    {
        match &self.keyword {
            Some(k) => {
                let t = trim(k.as_str());
                if t.as_str().is_empty() {
                    None
                } else {
                    Some(to_lowercase(t.as_str()))
                }
            },
            None => None,
        }
    }

    /// The column to order by: "memory", "virtual_memory", "pid", "name" and
    /// "run_time" each pick their own column; any other word, or none, the
    /// CPU usage.
    pub fn sort_key(&self) -> (s: ProcessSort)
        ensures
            s == process_sort_of(
                match self.sort {
                    Some(v) => Some(v@),
                    None => None,
                },
            ),
            self.sort matches Some(v) && v@ == "memory"@ ==> s == ProcessSort::Memory,
            self.sort matches Some(v) && v@ == "virtual_memory"@ ==> s == ProcessSort::VirtualMemory,
            self.sort matches Some(v) && v@ == "pid"@ ==> s == ProcessSort::Pid,
            self.sort matches Some(v) && v@ == "name"@ ==> s == ProcessSort::Name,
            self.sort matches Some(v) && v@ == "run_time"@ ==> s == ProcessSort::RunTime,
            self.sort is None ==> s == ProcessSort::Cpu,
            self.sort matches Some(v) && !sort_word(v@) ==> s == ProcessSort::Cpu,
    {
        proof {
            if self.sort is Some {
                law_sort_words_pick_their_columns(self.sort->0@);
            } else {
                law_sort_words_pick_their_columns(Seq::empty());
            }
        }
        match &self.sort {
            Some(s) => {
                let v = s.as_str();
                if str_eq(v, "memory") {
                    ProcessSort::Memory
                } else if str_eq(v, "virtual_memory") {
                    ProcessSort::VirtualMemory
                } else if str_eq(v, "pid") {
                    ProcessSort::Pid
                } else if str_eq(v, "name") {
                    ProcessSort::Name
                } else if str_eq(v, "run_time") {
                    ProcessSort::RunTime
                } else {
                    ProcessSort::Cpu
                }
            },
            None => ProcessSort::Cpu,
        }
    }

    /// Whether the list runs from the largest down: unless the order is
    /// "asc".
    pub fn descending(&self) -> (d: bool)
        ensures
            d == !(self.order matches Some(o) && o@ == "asc"@),
    {
        match &self.order {
            Some(o) => !str_eq(o.as_str(), "asc"),
            None => true,
        }
    }
}

/// The texts of a process that a keyword is looked for in.
#[derive(Debug)]
pub struct ProcessText {
    pub pid: String,
    pub name: String,
    pub command: String,
}

/// Holds when a process passes the keyword filter: the keyword occurs in
/// its lower-cased name or command, or in its pid.
pub open spec fn process_matches_spec(keyword: Option<Seq<char>>, p: ProcessText) -> bool {
    match keyword {
        None => true,
        Some(k) => contains_seq(unicode_lowercase(p.name@), k) || contains_seq(
            unicode_lowercase(p.command@),
            k,
        ) || contains_seq(p.pid@, k),
    }
}

/// Whether a process passes the keyword filter.
pub fn process_matches(keyword: &Option<String>, p: &ProcessText) -> (b: bool)
    ensures
        b == process_matches_spec(
            match keyword {
                Some(k) => Some(k@),
                None => None,
            },
            *p,
        ),
{
    match keyword {
        None => true,
        Some(k) => {
            let name = to_lowercase(p.name.as_str());
            let command = to_lowercase(p.command.as_str());
            contains_text(name.as_str(), k.as_str()) || contains_text(command.as_str(), k.as_str())
                || contains_text(p.pid.as_str(), k.as_str())
        },
    }
}

/// The positions, in order, of the processes that pass the keyword filter.
pub open spec fn matching_positions(keyword: Option<Seq<char>>, ps: Seq<ProcessText>) -> Seq<
    usize,
>
    decreases ps.len(),
{
    if ps.len() == 0 {
        Seq::empty()
    } else {
        let rest = matching_positions(keyword, ps.drop_last());
        if process_matches_spec(keyword, ps.last()) {
            rest.push((ps.len() - 1) as usize)
        } else {
            rest
        }
    }
}

/// The positions of the processes that pass the keyword filter.
pub fn matching_processes(keyword: &Option<String>, processes: &Vec<ProcessText>) -> (r: Vec<usize>)
    ensures
        r@ == matching_positions(
            match keyword {
                Some(k) => Some(k@),
                None => None,
            },
            processes@,
        ),
{
    let ghost kw = match keyword {
        Some(k) => Some(k@),
        None => None,
    };
    let mut r: Vec<usize> = Vec::new();
    let mut i: usize = 0;
    while i < processes.len()
        invariant
            i <= processes@.len(),
            kw == match keyword {
                Some(k) => Some(k@),
                None => None,
            },
            r@ == matching_positions(kw, processes@.subrange(0, i as int)),
        decreases processes.len() - i,
    {
        proof {
            assert(processes@.subrange(0, i + 1).drop_last() =~= processes@.subrange(0, i as int));
        }
        if process_matches(keyword, &processes[i]) {
            r.push(i);
        }
        i = i + 1;
    }
    proof {
        assert(processes@.subrange(0, processes@.len() as int) =~= processes@);
    }
    r
}

/// Where a page of `len` items starts, as `(page - 1) * page_size`,
/// saturating.
pub open spec fn page_start(page: u64, page_size: u64) -> int {
    let s = (page - 1) * page_size;
    let s = if s > u64::MAX {
        u64::MAX as int
    } else {
        s
    };
    if s > usize::MAX {
        usize::MAX as int
    } else {
        s
    }
}

/// How many items a page takes.
pub open spec fn page_take(page_size: u64) -> int {
    if page_size <= usize::MAX {
        page_size as int
    } else {
        100
    }
}

/// The positions `[start, end)` of the items that a page shows: empty at
/// the end when the page starts past the last item.
pub open spec fn page_bounds(len: nat, page: u64, page_size: u64) -> (int, int) {
    let start = page_start(page, page_size);
    if start >= len {
        (len as int, len as int)
    } else if start + page_take(page_size) < len {
        (start, start + page_take(page_size))
    } else {
        (start, len as int)
    }
}

/// The bounds of a page of `len` items.
pub fn page_window(len: usize, page: u64, page_size: u64) -> (r: (usize, usize))
    requires
        page >= 1,
    ensures
        r.0 == page_bounds(len as nat, page, page_size).0,
        r.1 == page_bounds(len as nat, page, page_size).1,
        r.0 <= r.1 <= len,
{
    let a = (page - 1) as u128;
    let b = page_size as u128;
    assert(a * b <= u64::MAX as u128 * u64::MAX as u128) by (nonlinear_arith)
        requires
            a <= u64::MAX,
            b <= u64::MAX,
    ;
    let prior = a * b;
    let s64: u64 = if prior > u64::MAX as u128 {
        u64::MAX
    } else {
        prior as u64
    };
    let start: usize = if s64 as u128 > usize::MAX as u128 {
        usize::MAX
    } else {
        s64 as usize
    };
    let take: usize = if page_size as u128 <= usize::MAX as u128 {
        page_size as usize
    } else {
        100
    };
    if start >= len {
        (len, len)
    } else if take < len - start {
        (start, start + take)
    } else {
        (start, len)
    }
}

/// Law: the pages of a list follow one another: each page ends where the
/// next one starts, so that paging through the list shows every item once.
pub proof fn law_pages_follow_one_another(len: nat, page: u64, page_size: u64)
    requires
        1 <= page < u64::MAX,
        1 <= page_size,
        page_size <= usize::MAX,
        len <= usize::MAX,
    ensures
        page_bounds(len, (page + 1) as u64, page_size).0 == page_bounds(len, page, page_size).1,
        page_bounds(len, page, page_size).0 <= page_bounds(len, page, page_size).1 <= len,
{
    let p = page as int;
    let s = page_size as int;
    assert((p - 1) * s + s == p * s) by (nonlinear_arith);
    assert(0 <= (p - 1) * s) by (nonlinear_arith)
        requires
            p >= 1,
            s >= 1,
    ;
    assert((p - 1) * s <= p * s) by (nonlinear_arith)
        requires
            s >= 1,
            p >= 1,
    ;
    assert(page_take(page_size) == s);
    assert(((page + 1) as u64) - 1 == p);
}

/// The items of one page of `records`.
pub fn page_items<T>(records: Vec<T>, page: u64, page_size: u64) -> (r: Vec<T>)
    requires
        page >= 1,
    ensures
        r@ == records@.subrange(
            page_bounds(records@.len(), page, page_size).0,
            page_bounds(records@.len(), page, page_size).1,
        ),
{
    let (start, end) = page_window(records.len(), page, page_size);
    let mut all = records;
    let mut tail = all.split_off(start);
    tail.truncate(end - start);
    proof {
        assert(tail@ =~= records@.subrange(start as int, end as int));
    }
    tail
}

/// The share of `total` that `used` is, in hundredths of a percent (0 to
/// 10000); 0 when `total` is 0.
pub open spec fn basis_points(used: u64, total: u64) -> u16 {
    if total == 0 {
        0
    } else {
        let scaled = if used * 10000 > u64::MAX {
            u64::MAX as int
        } else {
            used * 10000
        };
        let bp = scaled / (total as int);
        if bp > 10000 {
            10000
        } else {
            bp as u16
        }
    }
}

/// `used` against `total` in hundredths of a percent.
pub fn percent_basis_points(used: u64, total: u64) -> (r: u16)
    ensures
        r == basis_points(used, total),
{
    if total == 0 {
        return 0;
    }
    let wide = used as u128 * 10000;
    let scaled: u64 = if wide > u64::MAX as u128 {
        u64::MAX
    } else {
        wide as u64
    };
    let bp = scaled / total;
    if bp > 10000 {
        10000
    } else {
        bp as u16
    }
}

/// The used space of a disk (`total - available`, never below 0) and its
/// share of the total in hundredths of a percent.
pub fn disk_usage(total_bytes: u64, available_bytes: u64) -> (r: (u64, u16))
    ensures
        r.0 == if available_bytes <= total_bytes {
            total_bytes - available_bytes
        } else {
            0
        },
        r.1 == basis_points(r.0, total_bytes),
{
    let used = if available_bytes <= total_bytes {
        total_bytes - available_bytes
    } else {
        0
    };
    (used, percent_basis_points(used, total_bytes))
}

/// The paths that report the service's health.
pub fn health_links() -> (r: Vec<String>)
    ensures
        views(r@) == seq!["/_health"@, "/_readiness"@, "/_ping"@],
{
    let mut r: Vec<String> = Vec::new();
    r.push(String::from_str("/_health"));
    r.push(String::from_str("/_readiness"));
    r.push(String::from_str("/_ping"));
    proof {
        assert(views(r@) =~= seq!["/_health"@, "/_readiness"@, "/_ping"@]);
    }
    r
}

/// A reported GPU text: none when empty or "[not supported]" in any ASCII
/// case.
pub open spec fn gpu_text(value: Seq<char>) -> Option<Seq<char>> {
    if value.len() == 0 || lowered(value) == "[not supported]"@ {
        None
    } else {
        Some(value)
    }
}

/// A reported GPU text, as `gpu_text` says.
pub fn optional_gpu_text(value: &str) -> (r: Option<String>)
    ensures
        match r {
            Some(s) => gpu_text(value@) == Some(s@),
            None => gpu_text(value@) is None,
        },
{
    if value.is_empty() {
        return None;
    }
    let low = ascii_lowercase(value);
    if str_eq(low.as_str(), "[not supported]") {
        None
    } else {
        Some(String::from_str(value))
    }
}

/// The bytes of a reported number of MiB, saturating; none when the text
/// is not a `u64`.
pub open spec fn mib_bytes(value: Seq<char>) -> Option<u64> {
    match u64_text_value(value) {
        Some(n) => Some(
            if n * 1048576 > u64::MAX {
                u64::MAX
            } else {
                (n * 1048576) as u64
            },
        ),
        None => None,
    }
}

/// A reported number of MiB in bytes.
pub fn parse_optional_mib(value: &str) -> (r: Option<u64>)
    ensures
        r == mib_bytes(value@),
{
    match parse_u64(value) {
        Some(n) => {
            let wide = n as u128 * 1048576;
            Some(
                if wide > u64::MAX as u128 {
                    u64::MAX
                } else {
                    wide as u64
                },
            )
        },
        None => None,
    }
}

/// The fields of one line of the GPU report, before its decimal numbers
/// are read: utilization and temperature stay text.
#[derive(Debug)]
pub struct GpuLineFields {
    pub name: String,
    pub driver_version: Option<String>,
    pub utilization: String,
    pub memory_total_bytes: Option<u64>,
    pub memory_used_bytes: Option<u64>,
    pub temperature: String,
}

/// The trimmed comma-separated fields of a GPU report line.
pub open spec fn gpu_parts(line: Seq<char>) -> Seq<Seq<char>> {
    split_on(line, ',').map_values(|p: Seq<char>| trim_seq(p))
}

/// Holds when a GPU report line has at least six fields and a name.
pub open spec fn gpu_line_ok(line: Seq<char>) -> bool {
    gpu_parts(line).len() >= 6 && gpu_parts(line)[0].len() > 0
}

/// The fields of a GPU report line (`name, driver, utilization, memory
/// total, memory used, temperature`), or none when it has fewer than six
/// fields or no name.
pub fn gpu_line_fields(line: &str) -> (r: Option<GpuLineFields>)
    ensures
        r is Some <==> gpu_line_ok(line@),
        r matches Some(f) ==> {
            &&& f.name@ == gpu_parts(line@)[0]
            &&& match f.driver_version {
                Some(d) => gpu_text(gpu_parts(line@)[1]) == Some(d@),
                None => gpu_text(gpu_parts(line@)[1]) is None,
            }
            &&& f.utilization@ == gpu_parts(line@)[2]
            &&& f.memory_total_bytes == mib_bytes(gpu_parts(line@)[3])
            &&& f.memory_used_bytes == mib_bytes(gpu_parts(line@)[4])
            &&& f.temperature@ == gpu_parts(line@)[5]
        },
{
    let pieces = split_char(line, ',');
    let ghost parts = gpu_parts(line@);
    proof {
        lemma_split_on_len(line@, ',');
        assert(parts.len() == pieces@.len());
        assert(forall|i: int|
            0 <= i < pieces@.len() ==> #[trigger] parts[i] == trim_seq(pieces@[i]@));
    }
    if pieces.len() < 6 {
        return None;
    }
    let name = trim(pieces[0].as_str());
    if name.as_str().is_empty() {
        return None;
    }
    let driver = trim(pieces[1].as_str());
    let utilization = trim(pieces[2].as_str());
    let total = trim(pieces[3].as_str());
    let used = trim(pieces[4].as_str());
    let temperature = trim(pieces[5].as_str());
    proof {
        assert(parts[0] == trim_seq(pieces@[0]@));
        assert(parts[1] == trim_seq(pieces@[1]@));
        assert(parts[2] == trim_seq(pieces@[2]@));
        assert(parts[3] == trim_seq(pieces@[3]@));
        assert(parts[4] == trim_seq(pieces@[4]@));
        assert(parts[5] == trim_seq(pieces@[5]@));
    }
    Some(
        GpuLineFields {
            name,
            driver_version: optional_gpu_text(driver.as_str()),
            utilization,
            memory_total_bytes: parse_optional_mib(total.as_str()),
            memory_used_bytes: parse_optional_mib(used.as_str()),
            temperature,
        },
    )
}

} // verus!
