//! Queries of the request-log endpoint: sorting and paging.

use crate::error::{refuses_request, Error};
use crate::text::{lowercase, lowercase_of, str_eq};
use vstd::prelude::*;

verus! {

/// Query parameters of the request-log endpoint.
#[derive(Debug)]
pub struct LogsQuery {
    pub range: Option<String>,
    pub since: Option<String>,
    pub until: Option<String>,
    pub model: Option<String>,
    pub provider: Option<String>,
    pub success: Option<bool>,
    pub streaming: Option<bool>,
    pub page: Option<u32>,
    pub per_page: Option<u32>,
    pub sort: Option<String>,
    pub order: Option<String>,
}

/// Token counts of a request.
#[derive(Debug)]
pub struct TokensSection {
    pub input: Option<i64>,
    pub output: Option<i64>,
}

/// Timing of a request.
#[derive(Debug)]
pub struct TimingSection {
    pub latency_ms: i64,
    pub stream_duration_ms: Option<i64>,
}

/// Error details of a failed request.
#[derive(Debug)]
pub struct ErrorSection {
    pub status: Option<i32>,
    pub message: Option<String>,
}

/// Whether a log may be sorted by the field.
pub open spec fn sortable(field: Seq<char>) -> bool {
    field == "timestamp"@ || field == "cost_sats"@ || field == "latency_ms"@
}

/// The message for a field that logs cannot be sorted by.
pub open spec fn invalid_field_message(field: Seq<char>) -> Seq<char> {
    "Invalid sort field '"@ + field + "'. Valid options: timestamp, cost_sats, latency_ms"@
}

/// The message for an order that is neither ascending nor descending.
pub open spec fn invalid_order_message(order: Seq<char>) -> Seq<char> {
    "Invalid sort order '"@ + order + "'. Valid options: asc, desc"@
}

/// Checks a sort field against the columns that may be sorted by, and
/// returns the column.
pub fn validate_sort_field(field: &str) -> (r: Result<&'static str, Error>)
    ensures
        match r {
            Ok(column) => sortable(field@) && column@ == field@,
            Err(e) => !sortable(field@) && refuses_request(e, invalid_field_message(field@)),
        },
{
    if str_eq(field, "timestamp") {
        Ok("timestamp")
    } else if str_eq(field, "cost_sats") {
        Ok("cost_sats")
    } else if str_eq(field, "latency_ms") {
        Ok("latency_ms")
    } else {
        let mut message = String::from_str("Invalid sort field '");
        message.append(field);
        message.append("'. Valid options: timestamp, cost_sats, latency_ms");
        Err(Error::BadRequest(message))
    }
}

/// The keyword for a sort order written in small letters.
pub open spec fn keyword_of(lowered: Seq<char>) -> Option<Seq<char>> {
    if lowered == "asc"@ {
        Some("ASC"@)
    } else if lowered == "desc"@ {
        Some("DESC"@)
    } else {
        None
    }
}

/// The keyword for a sort order that is already in small letters.
pub fn order_keyword(lowered: &str) -> (r: Option<&'static str>)
    ensures
        match r {
            Some(keyword) => keyword_of(lowered@) == Some(keyword@),
            None => keyword_of(lowered@) is None,
        },
{
    if str_eq(lowered, "asc") {
        Some("ASC")
    } else if str_eq(lowered, "desc") {
        Some("DESC")
    } else {
        None
    }
}

/// Checks a sort order, letter case aside, and returns the keyword for it.
pub fn validate_sort_order(order: &str) -> (r: Result<&'static str, Error>)
    ensures
        match r {
            Ok(keyword) => keyword_of(lowercase_of(order@)) == Some(keyword@),
            Err(e) => keyword_of(lowercase_of(order@)) is None && refuses_request(
                e,
                invalid_order_message(order@),
            ),
        },
{
    let lower = lowercase(order);
    match order_keyword(lower.as_str()) {
        Some(keyword) => Ok(keyword),
        None => {
            let mut message = String::from_str("Invalid sort order '");
            message.append(order);
            message.append("'. Valid options: asc, desc");
            Err(Error::BadRequest(message))
        },
    }
}

/// The column that a listing is sorted by: the one asked for, where it may
/// be sorted by; the time of the request where none is asked for.
pub fn sort_column(sort: Option<&str>) -> (r: Result<&'static str, Error>)
    ensures
        match sort {
            None => r matches Ok(column) && column@ == "timestamp"@,
            Some(field) => match r {
                Ok(column) => sortable(field@) && column@ == field@,
                Err(e) => !sortable(field@) && refuses_request(e, invalid_field_message(field@)),
            },
        },
{
    match sort {
        Some(field) => validate_sort_field(field),
        None => Ok("timestamp"),
    }
}

/// The direction that a listing is sorted in: the one asked for; newest
/// first where none is asked for.
pub fn sort_direction(order: Option<&str>) -> (r: Result<&'static str, Error>)
    ensures
        match order {
            None => r matches Ok(keyword) && keyword@ == "DESC"@,
            Some(word) => match r {
                Ok(keyword) => keyword_of(lowercase_of(word@)) == Some(keyword@),
                Err(e) => keyword_of(lowercase_of(word@)) is None && refuses_request(
                    e,
                    invalid_order_message(word@),
                ),
            },
        },
{
    match order {
        Some(word) => validate_sort_order(word),
        None => Ok("DESC"),
    }
}

/// The error details of a log row: there are some where the row holds a
/// status or a message.
pub fn error_section(status: Option<i32>, message: Option<String>) -> (r: Option<ErrorSection>)
    ensures
        match r {
            Some(section) => (status is Some || message is Some) && section.status == status
                && section.message == message,
            None => status is None && message is None,
        },
{
    if status.is_some() || message.is_some() {
        Some(ErrorSection { status, message })
    } else {
        None
    }
}

/// One page of a listing.
#[derive(Debug, Clone, Copy, PartialEq, Eq, Structural)]
pub struct Page {
    /// Number of the page, from 1.
    pub page: u32,
    /// Rows per page, from 1 to 100.
    pub per_page: u32,
    /// Number of pages that the rows fill.
    pub total_pages: u32,
    /// Rows before the page.
    pub offset: u64,
}

/// The page number asked for: 1 unless a larger one is given.
pub open spec fn page_number(page: Option<u32>) -> u32 {
    match page {
        Some(p) => if p < 1 {
            1
        } else {
            p
        },
        None => 1,
    }
}

/// The page size asked for: 20 by default, and from 1 to 100.
pub open spec fn page_size(per_page: Option<u32>) -> u32 {
    match per_page {
        Some(n) => if n < 1 {
            1
        } else if n > 100 {
            100
        } else {
            n
        },
        None => 20,
    }
}

/// The low 32 bits of a row count.
pub open spec fn row_count(total: i64) -> int {
    (total as int) % 0x1_0000_0000
}

/// The number of pages that `rows` rows fill.
pub open spec fn pages_for(rows: int, per_page: int) -> int {
    (rows + per_page - 1) / per_page
}

/// Works out a page of a listing with `total` rows.
pub fn paginate(page: Option<u32>, per_page: Option<u32>, total: i64) -> (r: Page)
    ensures
        r.page == page_number(page),
        r.per_page == page_size(per_page),
        r.total_pages == if total == 0 {
            0
        } else {
            pages_for(row_count(total), r.per_page as int)
        },
        r.offset == (r.page - 1) * r.per_page,
{
    let number: u32 = match page {
        Some(p) => if p < 1 {
            1
        } else {
            p
        },
        None => 1,
    };
    let size: u32 = match per_page {
        Some(n) => if n < 1 {
            1
        } else if n > 100 {
            100
        } else {
            n
        },
        None => 20,
    };
    let total_pages: u32 = if total == 0 {
        0
    } else {
        let shifted: u128 = (total as i128 + 0x8000_0000_0000_0000i128) as u128;
        let rows: u64 = (shifted % 0x1_0000_0000u128) as u64;
        assert(rows == row_count(total));
        assert((rows + size - 1) / (size as int) <= rows) by (nonlinear_arith)
            requires
                rows >= 0,
                size >= 1,
        ;
        ((rows + size as u64 - 1) / (size as u64)) as u32
    };
    assert((number - 1) * size <= 0xffff_ffff * 100) by (nonlinear_arith)
        requires
            0 <= number - 1 <= 0xffff_ffff,
            0 <= size <= 100,
    ;
    let offset: u64 = ((number - 1) as u64) * (size as u64);
    Page { page: number, per_page: size, total_pages, offset }
}

} // verus!
