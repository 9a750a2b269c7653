//! Requests for the temperatures of past days.

use vstd::prelude::*;
use crate::history::{self, HistoryPage, HistoryQuery, StoredTemperatures};
use crate::rpc::{self, Reply, RpcErrorCode, RpcFailure};
use crate::text;

verus! {

/// A request for the temperatures of past days.
#[derive(Debug, Clone, PartialEq, Eq)]
pub struct GetTemperatureHistoryRequest {
    pub unified_uuid: String,
    pub page_size: u32,
    pub before_date: Option<String>,
}

/// Checks a decoded request; one that could not be decoded is refused with that message.
pub fn history_request(decoded: Result<GetTemperatureHistoryRequest, String>) -> (r: Result<
    HistoryQuery,
    RpcFailure,
>)
    ensures
        match decoded {
            Err(m) => r matches Err(f) && rpc::fails(f, RpcErrorCode::BadRequest, m@),
            Ok(request) => match history::history_fault(
                request.unified_uuid@,
                request.page_size,
                text::opt_text(request.before_date),
            ) {
                Some(m) => r matches Err(f) && rpc::fails(f, RpcErrorCode::BadRequest, m),
                None => r matches Ok(q) && history::query_of(
                    q,
                    request.unified_uuid@,
                    request.page_size,
                    text::opt_text(request.before_date),
                ),
            },
        },
{
    let request = match decoded {
        Ok(request) => request,
        Err(message) => {
            return Err(RpcFailure::new(RpcErrorCode::BadRequest, message));
        },
    };
    let before_date = match &request.before_date {
        Some(date) => Some(date.as_str()),
        None => None,
    };
    match history::plan_history_request(
        request.unified_uuid.as_str(),
        request.page_size,
        before_date,
    ) {
        Ok(query) => Ok(query),
        Err(message) => Err(RpcFailure::new(RpcErrorCode::BadRequest, message)),
    }
}

/// Answers a request with the snapshots that were loaded for it, the oldest first, and
/// whether there are older ones.
pub fn handle_get_temperature_history(
    query: &HistoryQuery,
    loaded: Result<(Vec<StoredTemperatures>, bool), String>,
) -> (r: Reply<HistoryPage>)
    ensures
        match loaded {
            Ok((rows, has_more)) => r matches Reply::Done(page) && history::page_of(
                page,
                rows@,
                has_more,
                query.before_date is None,
            ),
            Err(m) => r matches Reply::Error(f) && rpc::fails(
                f,
                RpcErrorCode::Database,
                "failed to load temperature history: "@ + m@,
            ),
        },
{
    match loaded {
        Ok((rows, has_more)) => Reply::Done(history::history_page(&rows, has_more, query)),
        Err(message) => Reply::Error(
            RpcFailure::new(
                RpcErrorCode::Database,
                text::cat("failed to load temperature history: ", message.as_str()),
            ),
        ),
    }
}

} // verus!
