//! Shared pagination rules of the entity-list endpoints.

use vstd::prelude::*;

verus! {

/// Page size used when a request names none.
pub const DEFAULT_LIMIT: i64 = 50;

/// Largest page size a request can obtain.
pub const MAX_LIMIT: i64 = 200;

/// Page size that a request obtains.
pub open spec fn limit_of(raw: Option<i64>) -> i64 {
    match raw {
        None => DEFAULT_LIMIT,
        Some(n) => if n <= 0 {
            1
        } else if n > MAX_LIMIT {
            MAX_LIMIT
        } else {
            n
        },
    }
}

/// Row offset that a request obtains.
pub open spec fn offset_of(raw: Option<i64>) -> i64 {
    match raw {
        Some(n) if n >= 0 => n,
        _ => 0,
    }
}

/// Clamps `limit` to `[1, MAX_LIMIT]`; an absent one is `DEFAULT_LIMIT`.
pub fn clamp_limit(raw: Option<i64>) -> (limit: i64)
    ensures
        limit == limit_of(raw),
        1 <= limit <= MAX_LIMIT,
{
    match raw {
        None => DEFAULT_LIMIT,
        Some(n) => if n <= 0 {
            1
        } else if n > MAX_LIMIT {
            MAX_LIMIT
        } else {
            n
        },
    }
}

/// Clamps `offset` to non-negative; an absent one is `0`.
pub fn clamp_offset(raw: Option<i64>) -> (offset: i64)
    ensures
        offset == offset_of(raw),
        offset >= 0,
{
    match raw {
        None => 0,
        Some(n) => if n < 0 {
            0
        } else {
            n
        },
    }
}

/// Clamping is idempotent: a clamped page size is a valid page size.
pub proof fn law_clamp_idempotent(raw: Option<i64>)
    ensures
        limit_of(Some(limit_of(raw))) == limit_of(raw),
        offset_of(Some(offset_of(raw))) == offset_of(raw),
{
}

/// A page has the size asked for, from one to two hundred rows, and fifty
/// where nothing is asked for. It begins where it is asked to, or at the
/// beginning.
pub proof fn law_page(n: i64)
    ensures
        limit_of(None) == 50,
        1 <= n <= 200 ==> limit_of(Some(n)) == n,
        n < 1 ==> limit_of(Some(n)) == 1,
        n > 200 ==> limit_of(Some(n)) == 200,
        offset_of(None) == 0,
        n >= 0 ==> offset_of(Some(n)) == n,
        n < 0 ==> offset_of(Some(n)) == 0,
{
}

} // verus!
