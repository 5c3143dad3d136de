use vstd::prelude::*;
use crate::outside::now_unix;

verus! {

/// Whole seconds of wall-clock time since the Unix epoch.
pub fn now() -> u64 {
    now_unix()
}

/// `n` seconds, as seconds.
pub fn seconds(n: u64) -> (r: u64)
    ensures
        r == n,
{
    n
}

/// `n` minutes, as seconds, saturating at the largest 64-bit value.
pub fn minutes(n: u64) -> (r: u64)
    ensures
        r as int == if n as int * 60 > u64::MAX as int {
            u64::MAX as int
        } else {
            n as int * 60
        },
{
    match n.checked_mul(60) {
        Some(v) => v,
        None => u64::MAX,
    }
}

/// `n` hours, as seconds, saturating at the largest 64-bit value.
pub fn hours(n: u64) -> (r: u64)
    ensures
        r as int == if n as int * 3600 > u64::MAX as int {
            u64::MAX as int
        } else {
            n as int * 3600
        },
{
    match n.checked_mul(3600) {
        Some(v) => v,
        None => u64::MAX,
    }
}

/// `n` days, as seconds, saturating at the largest 64-bit value.
pub fn days(n: u64) -> (r: u64)
    ensures
        r as int == if n as int * 86400 > u64::MAX as int {
            u64::MAX as int
        } else {
            n as int * 86400
        },
{
    match n.checked_mul(86400) {
        Some(v) => v,
        None => u64::MAX,
    }
}

/// `n` weeks, as seconds, saturating at the largest 64-bit value.
pub fn weeks(n: u64) -> (r: u64)
    ensures
        r as int == if n as int * 604800 > u64::MAX as int {
            u64::MAX as int
        } else {
            n as int * 604800
        },
{
    match n.checked_mul(604800) {
        Some(v) => v,
        None => u64::MAX,
    }
}

} // verus!
