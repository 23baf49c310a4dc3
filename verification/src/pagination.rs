use vstd::prelude::*;

verus! {

/// The page a listing shows: the requested one, at least 1; 1 when absent.
pub open spec fn page_number(requested: Option<u64>) -> u64 {
    match requested {
        Some(p) => if p < 1 {
            1
        } else {
            p
        },
        None => 1,
    }
}

/// The page size a listing uses: the requested one clamped to 1..=100;
/// 10 when absent.
pub open spec fn page_size_number(requested: Option<u64>) -> u64 {
    match requested {
        Some(s) => if s < 1 {
            1
        } else if s > 100 {
            100
        } else {
            s
        },
        None => 10,
    }
}

/// `requested.unwrap_or(1).max(1)`.
pub fn page(requested: Option<u64>) -> (p: u64)
    ensures
        p == page_number(requested),
        p >= 1,
{
    match requested {
        Some(p) => if p < 1 {
            1
        } else {
            p
        },
        None => 1,
    }
}

/// `requested.unwrap_or(10).clamp(1, 100)`.
pub fn page_size(requested: Option<u64>) -> (s: u64)
    ensures
        s == page_size_number(requested),
        1 <= s <= 100,
{
    match requested {
        Some(s) => if s < 1 {
            1
        } else if s > 100 {
            100
        } else {
            s
        },
        None => 10,
    }
}

/// `value.unwrap_or(default).clamp(lo, hi)` for an `i64` bound such as a
/// log limit.
pub fn clamp_or_default(value: Option<u64>, default: u64, lo: u64, hi: u64) -> (r: u64)
    requires
        lo <= hi,
    ensures
        r == ({
            let v = match value {
                Some(v) => v,
                None => default,
            };
            if v < lo {
                lo
            } else if v > hi {
                hi
            } else {
                v
            }
        }),
{
    let v = match value {
        Some(v) => v,
        None => default,
    };
    if v < lo {
        lo
    } else if v > hi {
        hi
    } else {
        v
    }
}

/// `value.unwrap_or(default).clamp(lo, hi)` for a `u16` such as a terminal
/// size.
pub fn clamp_u16_or_default(value: Option<u16>, default: u16, lo: u16, hi: u16) -> (r: u16)
    requires
        lo <= hi,
    ensures
        r == ({
            let v = match value {
                Some(v) => v,
                None => default,
            };
            if v < lo {
                lo
            } else if v > hi {
                hi
            } else {
                v
            }
        }),
        lo <= r <= hi,
{
    let v = match value {
        Some(v) => v,
        None => default,
    };
    if v < lo {
        lo
    } else if v > hi {
        hi
    } else {
        v
    }
}

} // verus!
