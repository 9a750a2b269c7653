//! Request limits.

use vstd::prelude::*;
use crate::text;

verus! {

/// Largest accepted request payload, in bytes.
pub const MAX_RPC_PAYLOAD_BYTES: usize = 1024 * 1024;

/// The most requests that are worked on at a time.
pub const MAX_CONCURRENT_REQUESTS: usize = 64;

/// The most stations that are refreshed at a time.
pub const MAX_CONCURRENT_REFRESHES: usize = 4;

/// The most catalog requests that a provider gets at a time.
pub const MAX_CONCURRENT_CATALOG_FETCHES: usize = 8;

/// The most queries in one request.
pub const MAX_BATCH_QUERIES: usize = 64;

/// Entries on a page where the request does not say.
pub const DEFAULT_PAGE_SIZE: u32 = 32;

/// Matches on a page where the request does not say.
pub const DEFAULT_FUZZY_PAGE_SIZE: u32 = 10;

/// What the wire format allows a request to ask for.
#[derive(Debug, Clone, Copy, PartialEq, Eq)]
pub struct PageLimits {
    /// The largest offset of a page.
    pub max_offset: u32,
    /// The most entries on a page.
    pub max_size: u32,
}

/// How many entries a page has: as many as asked for, or as many as usual.
pub open spec fn size_of_page(page_size: u32, default_page_size: u32) -> u32 {
    if page_size == 0 {
        default_page_size
    } else {
        page_size
    }
}

/// Why a page is not given, if it is not.
pub open spec fn page_fault(
    offset: u32,
    page_size: u32,
    default_page_size: u32,
    limits: PageLimits,
) -> Option<Seq<char>> {
    let size = size_of_page(page_size, default_page_size);
    if offset > limits.max_offset {
        Some(
            "page_offset "@ + text::numeral(offset as nat) + " exceeds maximum "@ + text::numeral(
                limits.max_offset as nat,
            ),
        )
    } else if size > limits.max_size {
        Some(
            "page_size "@ + text::numeral(size as nat) + " exceeds maximum "@ + text::numeral(
                limits.max_size as nat,
            ),
        )
    } else {
        None
    }
}

/// The offset and the size of the page that is asked for.
pub fn normalize_pagination(
    offset: u32,
    page_size: u32,
    default_page_size: u32,
    limits: PageLimits,
) -> (r: Result<(usize, usize), String>)
    ensures
        match page_fault(offset, page_size, default_page_size, limits) {
            Some(m) => r matches Err(e) && e@ == m,
            None => r matches Ok(p) && p.0 == offset && p.1 == size_of_page(
                page_size,
                default_page_size,
            ),
        },
{
    if offset > limits.max_offset {
        let mut m = text::cat("page_offset ", text::decimal(offset as u64).as_str());
        m.append(" exceeds maximum ");
        m.append(text::decimal(limits.max_offset as u64).as_str());
        return Err(m);
    }
    let page_size: u32 = if page_size == 0 {
        default_page_size
    } else {
        page_size
    };
    if page_size > limits.max_size {
        let mut m = text::cat("page_size ", text::decimal(page_size as u64).as_str());
        m.append(" exceeds maximum ");
        m.append(text::decimal(limits.max_size as u64).as_str());
        return Err(m);
    }
    Ok((offset as usize, page_size as usize))
}

/// Checks the number of queries in one request.
pub fn validate_batch_size(len: usize) -> (r: Result<(), String>)
    ensures
        if len > MAX_BATCH_QUERIES {
            r matches Err(m) && m@ == "batch query count "@ + text::numeral(len as nat)
                + " exceeds maximum "@ + text::numeral(MAX_BATCH_QUERIES as nat)
        } else {
            r is Ok
        },
{
    if len > MAX_BATCH_QUERIES {
        let mut m = text::cat("batch query count ", text::decimal(len as u64).as_str());
        m.append(" exceeds maximum ");
        m.append(text::decimal(MAX_BATCH_QUERIES as u64).as_str());
        Err(m)
    } else {
        Ok(())
    }
}

/// Whether a payload of `len` bytes is over the limit.
pub fn payload_exceeds_limit(len: usize) -> (over: bool)
    ensures
        over <==> len > MAX_RPC_PAYLOAD_BYTES,
{
    len > MAX_RPC_PAYLOAD_BYTES
}

/// The limits are these numbers.
pub proof fn limits_in_numbers()
    ensures
        MAX_RPC_PAYLOAD_BYTES == 1_048_576,
        MAX_CONCURRENT_REQUESTS == 64,
        MAX_CONCURRENT_REFRESHES == 4,
        MAX_CONCURRENT_CATALOG_FETCHES == 8,
        MAX_BATCH_QUERIES == 64,
        DEFAULT_PAGE_SIZE == 32,
        DEFAULT_FUZZY_PAGE_SIZE == 10,
{
}

/// A page is given exactly where its offset and its size are within what is allowed. The
/// size is the one that is asked for, unless that is none.
pub proof fn pages_within_limits_are_given(
    offset: u32,
    page_size: u32,
    default_page_size: u32,
    limits: PageLimits,
)
    ensures
        page_size > 0 ==> size_of_page(page_size, default_page_size) == page_size,
        page_size == 0 ==> size_of_page(page_size, default_page_size) == default_page_size,
        page_fault(offset, page_size, default_page_size, limits) is None <==> {
            &&& offset <= limits.max_offset
            &&& page_size <= limits.max_size
            &&& page_size == 0 ==> default_page_size <= limits.max_size
        },
{
}

/// A page that is not given is told with what was asked for and what is allowed, the offset
/// first.
pub proof fn refused_pages_are_told(
    offset: u32,
    page_size: u32,
    default_page_size: u32,
    limits: PageLimits,
)
    ensures
        offset > limits.max_offset ==> page_fault(offset, page_size, default_page_size, limits)
            == Some(
            "page_offset "@ + text::numeral(offset as nat) + " exceeds maximum "@ + text::numeral(
                limits.max_offset as nat,
            ),
        ),
        offset <= limits.max_offset && page_size > limits.max_size ==> page_fault(
            offset,
            page_size,
            default_page_size,
            limits,
        ) == Some(
            "page_size "@ + text::numeral(page_size as nat) + " exceeds maximum "@ + text::numeral(
                limits.max_size as nat,
            ),
        ),
{
}

} // verus!
