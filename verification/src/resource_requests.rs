//! Answering requests for resources: one chunk per answer, while the bytes are kept;
//! else a fetch is started, and the asker comes back.

use vstd::prelude::*;
use vstd::slice::{slice_subrange, slice_to_vec};
use crate::resources::{self, ManagerView, PlanView, ProviderResource, ResourceFetchPlan, ResourceManager};
use crate::rpc::{self, Reply, RpcErrorCode, RpcFailure};
use crate::text;

verus! {

/// Bytes in a chunk where the request does not say.
pub const DEFAULT_RESOURCE_CHUNK_BYTES: u32 = 256 * 1024;

/// The most bytes that a chunk may have.
pub const MAX_RESOURCE_CHUNK_BYTES: u32 = 512 * 1024;

/// After how many milliseconds to ask again for bytes that are being fetched.
pub const ASYNC_RESOURCE_RETRY_AFTER_MS: u32 = 75;

/// A request for the bytes of a resource from an offset on.
#[derive(Debug, PartialEq, Eq)]
pub struct GetResourceRequest {
    pub resource_id: String,
    pub offset: u64,
    pub max_bytes: u32,
}

/// Whether the bytes are there.
#[derive(Debug, Clone, Copy, PartialEq, Eq, Structural)]
pub enum ResourceTransferState {
    Ready,
    Pending,
}

/// A chunk of a resource, or word that it is being fetched.
#[derive(Debug, PartialEq, Eq)]
pub struct GetResourceResponse {
    pub resource_id: String,
    pub content_type: String,
    pub data: Vec<u8>,
    pub total_size: u64,
    pub next_offset: u64,
    pub complete: bool,
    pub cache_hit: bool,
    pub transfer_state: ResourceTransferState,
    pub retry_after_ms: u32,
}

/// The most bytes that the chunk for a request has.
pub open spec fn chunk_limit(max_bytes: u32) -> u32 {
    if max_bytes == 0 {
        DEFAULT_RESOURCE_CHUNK_BYTES
    } else {
        max_bytes
    }
}

/// Why a request is refused before the resource is looked for.
pub open spec fn request_fault(id: Seq<char>, max_bytes: u32) -> Option<Seq<char>> {
    if text::blank(id) {
        Some("resource_id must not be empty"@)
    } else if chunk_limit(max_bytes) > MAX_RESOURCE_CHUNK_BYTES {
        Some(
            "resource max_bytes "@ + text::numeral(max_bytes as nat) + " exceeds maximum "@
                + text::numeral(MAX_RESOURCE_CHUNK_BYTES as nat),
        )
    } else {
        None
    }
}

/// Where the chunk that starts at `offset` ends.
pub open spec fn chunk_end(len: nat, offset: int, limit: int) -> int {
    if offset + limit <= len {
        offset + limit
    } else {
        len as int
    }
}

/// The bytes of the chunk that starts at `offset`.
pub open spec fn chunk_bytes(bytes: Seq<u8>, offset: int, limit: int) -> Seq<u8> {
    bytes.subrange(offset, chunk_end(bytes.len(), offset, limit))
}

/// `r` is the chunk of `bytes` that starts at `offset`.
pub open spec fn is_chunk(
    r: GetResourceResponse,
    id: Seq<char>,
    content_type: Seq<char>,
    bytes: Seq<u8>,
    offset: int,
    limit: int,
    cache_hit: bool,
) -> bool {
    &&& r.resource_id@ == id
    &&& r.content_type@ == content_type
    &&& r.data@ == chunk_bytes(bytes, offset, limit)
    &&& r.total_size == bytes.len()
    &&& r.next_offset == chunk_end(bytes.len(), offset, limit)
    &&& r.complete == (chunk_end(bytes.len(), offset, limit) == bytes.len())
    &&& r.cache_hit == cache_hit
    &&& r.transfer_state == ResourceTransferState::Ready
    &&& r.retry_after_ms == 0
}

/// What a request beyond the end of a resource is answered.
pub open spec fn beyond_end(offset: nat, len: nat) -> Seq<char> {
    "resource offset "@ + text::numeral(offset) + " exceeds total size "@ + text::numeral(len)
}

/// The chunk of `bytes` that the request asks for.
pub fn resource_chunk(
    request: &GetResourceRequest,
    content_type: &str,
    bytes: &Vec<u8>,
    max_bytes: u32,
) -> (r: Result<GetResourceResponse, String>)
    ensures
        if request.offset > bytes@.len() {
            r matches Err(m) && m@ == beyond_end(request.offset as nat, bytes@.len())
        } else {
            r matches Ok(c) && is_chunk(
                c,
                request.resource_id@,
                content_type@,
                bytes@,
                request.offset as int,
                max_bytes as int,
                false,
            )
        },
{
    let total_size = bytes.len() as u64;
    if request.offset > total_size {
        let mut m = text::cat("resource offset ", text::decimal(request.offset).as_str());
        m.append(" exceeds total size ");
        m.append(text::decimal(total_size).as_str());
        return Err(m);
    }
    let start = request.offset as usize;
    let limit = max_bytes as usize;
    let end: usize = if limit <= bytes.len() - start {
        start + limit
    } else {
        bytes.len()
    };
    Ok(
        GetResourceResponse {
            resource_id: request.resource_id.clone(),
            content_type: content_type.to_owned(),
            data: slice_to_vec(slice_subrange(bytes.as_slice(), start, end)),
            total_size,
            next_offset: end as u64,
            complete: end == bytes.len(),
            cache_hit: false,
            transfer_state: ResourceTransferState::Ready,
            retry_after_ms: 0,
        },
    )
}

/// `r` says that the bytes from `offset` on are being fetched.
pub open spec fn is_pending(
    r: GetResourceResponse,
    id: Seq<char>,
    offset: u64,
    retry_after_ms: u32,
) -> bool {
    &&& r.resource_id@ == id
    &&& r.content_type@ == Seq::<char>::empty()
    &&& r.data@.len() == 0
    &&& r.total_size == 0
    &&& r.next_offset == offset
    &&& !r.complete
    &&& !r.cache_hit
    &&& r.transfer_state == ResourceTransferState::Pending
    &&& r.retry_after_ms == retry_after_ms
}

/// Word that the bytes are being fetched: the requested offset stays.
pub fn pending_resource_response(request: &GetResourceRequest, retry_after_ms: u32) -> (r:
    GetResourceResponse)
    ensures
        is_pending(r, request.resource_id@, request.offset, retry_after_ms),
{
    GetResourceResponse {
        resource_id: request.resource_id.clone(),
        content_type: String::new(),
        data: Vec::new(),
        total_size: 0,
        next_offset: request.offset,
        complete: false,
        cache_hit: false,
        transfer_state: ResourceTransferState::Pending,
        retry_after_ms,
    }
}

/// The answer that follows from the plan for a sound request.
pub open spec fn answers_plan(
    r: Reply<GetResourceResponse>,
    request: GetResourceRequest,
    plan: PlanView,
) -> bool {
    match plan {
        PlanView::Ready(resource) => if request.offset > resource.bytes@.len() {
            r matches Reply::Error(f) && rpc::fails(
                f,
                RpcErrorCode::BadRequest,
                beyond_end(request.offset as nat, resource.bytes@.len()),
            )
        } else {
            r matches Reply::Done(c) && is_chunk(
                c,
                request.resource_id@,
                resource.content_type@,
                resource.bytes@,
                request.offset as int,
                chunk_limit(request.max_bytes) as int,
                true,
            )
        },
        PlanView::Start(_) => r matches Reply::Accepted(p) && is_pending(
            p,
            request.resource_id@,
            request.offset,
            ASYNC_RESOURCE_RETRY_AFTER_MS,
        ),
        PlanView::Pending => r matches Reply::Accepted(p) && is_pending(
            p,
            request.resource_id@,
            request.offset,
            ASYNC_RESOURCE_RETRY_AFTER_MS,
        ),
        PlanView::Failed(m) => r matches Reply::Error(f) && rpc::fails(
            f,
            RpcErrorCode::Resource,
            m,
        ),
        PlanView::Missing => r matches Reply::Error(f) && rpc::fails(
            f,
            RpcErrorCode::Resource,
            "resource `"@ + request.resource_id@ + "` is not registered"@,
        ),
    }
}

/// The address from which the plan wants bytes.
pub open spec fn wanted(plan: PlanView) -> Option<Seq<char>> {
    match plan {
        PlanView::Start(url) => Some(url),
        _ => None,
    }
}

/// The answer to a request for a resource, and the address to fetch it from where a fetch
/// is to start. A request that cannot be decoded, names no resource or wants too much is
/// refused, and nothing else happens.
pub fn handle_get_resource(
    manager: &mut ResourceManager,
    request: Result<GetResourceRequest, String>,
    now: u128,
) -> (r: (Reply<GetResourceResponse>, Option<String>))
    requires
        old(manager).wf(),
    ensures
        final(manager).wf(),
        final(manager).same_limits(*old(manager)),
        match request {
            Err(m) => {
                &&& r.0 matches Reply::Error(f)
                &&& rpc::fails(f, RpcErrorCode::BadRequest, m@)
                &&& r.1 is None
                &&& final(manager)@ == old(manager)@
            },
            Ok(q) => match request_fault(q.resource_id@, q.max_bytes) {
                Some(m) => {
                    &&& r.0 matches Reply::Error(f)
                    &&& rpc::fails(f, RpcErrorCode::BadRequest, m)
                    &&& r.1 is None
                    &&& final(manager)@ == old(manager)@
                },
                None => {
                    let next = resources::begun(old(manager)@, q.resource_id@, now);
                    &&& answers_plan(r.0, q, next.1)
                    &&& text::opt_text(r.1) == wanted(next.1)
                    &&& final(manager)@ == next.0
                },
            },
        },
{
    let request = match request {
        Ok(request) => request,
        Err(message) => {
            return (rpc::undecodable(message.as_str()), None);
        },
    };
    if text::is_blank(request.resource_id.as_str()) {
        return (rpc::undecodable("resource_id must not be empty"), None);
    }
    let max_bytes: u32 = if request.max_bytes == 0 {
        DEFAULT_RESOURCE_CHUNK_BYTES
    } else {
        request.max_bytes
    };
    if max_bytes > MAX_RESOURCE_CHUNK_BYTES {
        let mut m = text::cat("resource max_bytes ", text::decimal(max_bytes as u64).as_str());
        m.append(" exceeds maximum ");
        m.append(text::decimal(MAX_RESOURCE_CHUNK_BYTES as u64).as_str());
        return (rpc::undecodable(m.as_str()), None);
    }
    match manager.begin_fetch(request.resource_id.as_str(), now) {
        ResourceFetchPlan::Ready(resource) => {
            let chunk = resource_chunk(
                &request,
                resource.content_type.as_str(),
                &resource.bytes,
                max_bytes,
            );
            match chunk {
                Ok(mut response) => {
                    response.cache_hit = true;
                    (Reply::Done(response), None)
                },
                Err(message) => (
                    Reply::Error(RpcFailure::new(RpcErrorCode::BadRequest, message)),
                    None,
                ),
            }
        },
        ResourceFetchPlan::Start { source_url } => (
            Reply::Accepted(pending_resource_response(&request, ASYNC_RESOURCE_RETRY_AFTER_MS)),
            Some(source_url),
        ),
        ResourceFetchPlan::Pending => (
            Reply::Accepted(pending_resource_response(&request, ASYNC_RESOURCE_RETRY_AFTER_MS)),
            None,
        ),
        ResourceFetchPlan::Failed(message) => (
            Reply::Error(RpcFailure::new(RpcErrorCode::Resource, message)),
            None,
        ),
        ResourceFetchPlan::Missing => {
            let m = text::cat("resource `", request.resource_id.as_str()).concat(
                "` is not registered",
            );
            (Reply::Error(RpcFailure::new(RpcErrorCode::Resource, m)), None)
        },
    }
}

/// The state after a fetch brought bytes, or failed.
pub open spec fn concluded(
    s: ManagerView,
    id: Seq<char>,
    fetched: Result<ProviderResource, String>,
    now: u128,
    ttl: u128,
    max_bytes: usize,
) -> ManagerView {
    match fetched {
        Ok(resource) => match resources::cache_fault(s, id, resource.bytes@.len(), max_bytes) {
            None => resources::finished(
                resources::kept(s, id, resource, now, ttl, max_bytes),
                id,
                None,
                now,
            ),
            Some(m) => resources::finished(s, id, Some(m), now),
        },
        Err(m) => resources::finished(s, id, Some(m@), now),
    }
}

/// Takes note of what a fetch brought: bytes that can be kept are kept; a failure, or the
/// reason why bytes cannot be kept, is remembered for a while.
pub fn conclude_resource_fetch(
    manager: &mut ResourceManager,
    resource_id: &str,
    fetched: Result<ProviderResource, String>,
    now: u128,
)
    requires
        old(manager).wf(),
        now + old(manager).time_to_live() <= u128::MAX,
        now + resources::FAILED_FETCH_TTL <= u128::MAX,
    ensures
        final(manager).wf(),
        final(manager).same_limits(*old(manager)),
        final(manager)@ == concluded(
            old(manager)@,
            resource_id@,
            fetched,
            now,
            old(manager).time_to_live(),
            old(manager).byte_limit(),
        ),
{
    let error = match fetched {
        Ok(resource) => match manager.cache(resource_id, resource, now) {
            Ok(_) => None,
            Err(message) => Some(message),
        },
        Err(message) => Some(message),
    };
    manager.finish_fetch(resource_id, error, now);
}

/// Asking on from where the last chunk ended neither skips nor repeats a byte.
pub proof fn chunks_join(bytes: Seq<u8>, offset: int, first: int, second: int)
    requires
        0 <= offset <= bytes.len(),
        first >= 0,
        second >= 0,
    ensures
        ({
            let middle = chunk_end(bytes.len(), offset, first);
            &&& offset <= middle <= bytes.len()
            &&& chunk_bytes(bytes, offset, first) + chunk_bytes(bytes, middle, second)
                == bytes.subrange(offset, chunk_end(bytes.len(), middle, second))
        }),
{
    let middle = chunk_end(bytes.len(), offset, first);
    assert(chunk_bytes(bytes, offset, first) + chunk_bytes(bytes, middle, second)
        =~= bytes.subrange(offset, chunk_end(bytes.len(), middle, second)));
}

/// A chunk that is not the last one has as many bytes as were asked for, and so the
/// offset grows.
pub proof fn chunks_move_on(bytes: Seq<u8>, offset: int, max_bytes: u32)
    requires
        0 <= offset <= bytes.len(),
        chunk_end(bytes.len(), offset, chunk_limit(max_bytes) as int) != bytes.len(),
    ensures
        chunk_bytes(bytes, offset, chunk_limit(max_bytes) as int).len() == chunk_limit(max_bytes),
        chunk_limit(max_bytes) > 0,
{
}

/// What a fetch brought can be read from the next request on, until its time is up.
pub proof fn fetched_bytes_are_served(
    s: ManagerView,
    id: Seq<char>,
    resource: ProviderResource,
    now: u128,
    later: u128,
    ttl: u128,
    max_bytes: usize,
    max_registrations: usize,
)
    requires
        resources::sound(s, max_bytes, max_registrations),
        resources::cache_fault(s, id, resource.bytes@.len(), max_bytes) is None,
        now + ttl <= u128::MAX,
        later < now + ttl,
    ensures
        resources::begun(concluded(s, id, Ok(resource), now, ttl, max_bytes), id, later).1
            == PlanView::Ready(resource),
{
    resources::kept_bytes_are_ready(
        s,
        max_bytes,
        max_registrations,
        id,
        resource,
        now,
        ttl,
        later,
    );
}

/// A failed fetch is reported until its time is up, and then the next request starts
/// another one.
pub proof fn failures_are_reported_for_a_while(
    s: ManagerView,
    id: Seq<char>,
    message: String,
    now: u128,
    later: u128,
    ttl: u128,
    max_bytes: usize,
)
    requires
        resources::registered_at(s.registrations, id) is Some,
        resources::cached_at(s.cache, id) is None,
        resources::under_way(s.fetches, id),
        now + resources::FAILED_FETCH_TTL <= u128::MAX,
    ensures
        ({
            let t = concluded(s, id, Err(message), now, ttl, max_bytes);
            let plan = resources::begun(t, id, later).1;
            if later < now + resources::FAILED_FETCH_TTL {
                plan == PlanView::Failed(message@)
            } else {
                plan is Start
            }
        }),
{
    let t = concluded(s, id, Err(message), now, ttl, max_bytes);
    resources::lemma_place(resources::fetch_ids(s.fetches), id);
    let f = resources::fetching_at(s.fetches, id)->0;
    let ids = resources::fetch_ids(t.fetches);
    assert(ids =~= resources::fetch_ids(s.fetches));
}

/// A chunk has 256 kibibytes where the request does not say, and 512 at most; a request for
/// more, or for no resource, is refused. Whoever waits asks again after 75 milliseconds.
pub proof fn chunks_are_limited(id: Seq<char>, max_bytes: u32)
    ensures
        chunk_limit(0) == 262_144,
        max_bytes > 0 ==> chunk_limit(max_bytes) == max_bytes,
        request_fault(id, max_bytes) is None <==> !text::blank(id) && max_bytes <= 524_288,
        ASYNC_RESOURCE_RETRY_AFTER_MS == 75,
{
}

/// A chunk holds the bytes from its offset on, as many as it may have or as there are, and
/// says where the next one starts and whether it is the last.
pub proof fn chunks_hold_what_follows_the_offset(
    r: GetResourceResponse,
    id: Seq<char>,
    content_type: Seq<char>,
    bytes: Seq<u8>,
    offset: int,
    limit: int,
    cache_hit: bool,
    i: int,
)
    requires
        is_chunk(r, id, content_type, bytes, offset, limit, cache_hit),
        0 <= offset <= bytes.len(),
        0 <= limit,
    ensures
        r.resource_id@ == id,
        r.content_type@ == content_type,
        r.total_size == bytes.len(),
        r.data@.len() <= limit,
        0 <= i < r.data@.len() ==> r.data@[i] == bytes[offset + i],
        r.next_offset == offset + r.data@.len(),
        r.complete <==> offset + r.data@.len() == bytes.len(),
        !r.complete ==> r.data@.len() == limit,
        r.cache_hit == cache_hit,
        r.transfer_state is Ready,
        r.retry_after_ms == 0,
{
}

/// Word that bytes are being fetched holds none, and keeps the offset.
pub proof fn pending_answers_hold_nothing(
    r: GetResourceResponse,
    id: Seq<char>,
    offset: u64,
    retry_after_ms: u32,
)
    requires
        is_pending(r, id, offset, retry_after_ms),
    ensures
        r.resource_id@ == id,
        r.data@.len() == 0,
        r.next_offset == offset,
        !r.complete,
        !r.cache_hit,
        r.transfer_state is Pending,
        r.retry_after_ms == retry_after_ms,
{
}

/// Bytes that are there are answered with the chunk that is asked for, from the cache; a
/// request beyond their end is refused. A fetch that starts or is under way is awaited, and
/// only one that starts has an address to fetch from.
pub proof fn plans_are_answered(
    r: Reply<GetResourceResponse>,
    request: GetResourceRequest,
    plan: PlanView,
)
    requires
        answers_plan(r, request, plan),
        request.max_bytes > 0,
    ensures
        plan matches PlanView::Ready(resource) ==> (r is Done <==> request.offset
            <= resource.bytes@.len()),
        plan matches PlanView::Ready(resource) ==> (r matches Reply::Done(c) ==> {
            &&& c.cache_hit
            &&& c.content_type@ == resource.content_type@
            &&& c.resource_id@ == request.resource_id@
            &&& c.total_size == resource.bytes@.len()
            &&& c.next_offset == request.offset + c.data@.len()
            &&& c.data@ == resource.bytes@.subrange(
                request.offset as int,
                (request.offset + c.data@.len()) as int,
            )
            &&& c.complete || c.data@.len() == request.max_bytes
        }),
        plan is Start || plan is Pending ==> (r matches Reply::Accepted(p)
            && p.transfer_state is Pending && p.next_offset == request.offset && p.retry_after_ms
            == 75),
        plan matches PlanView::Failed(m) ==> (r matches Reply::Error(f) && f.code
            == RpcErrorCode::Resource && f.message@ == m),
        plan is Missing ==> (r matches Reply::Error(f) && f.code == RpcErrorCode::Resource),
        wanted(plan) is Some <==> plan is Start,
        plan matches PlanView::Start(url) ==> wanted(plan) == Some(url),
{
}

/// The end of a fetch: bytes that may be kept are there from then on, and no fetch of the
/// resource is under way or remembered; a failure is remembered.
pub proof fn fetches_are_concluded(
    s: ManagerView,
    id: Seq<char>,
    resource: ProviderResource,
    message: String,
    now: u128,
    ttl: u128,
    max_bytes: usize,
    max_registrations: usize,
)
    requires
        resources::sound(s, max_bytes, max_registrations),
        now + ttl <= u128::MAX,
    ensures
        resources::cache_fault(s, id, resource.bytes@.len(), max_bytes) is None ==> {
            let t = concluded(s, id, Ok(resource), now, ttl, max_bytes);
            &&& t.cache.len() > 0
            &&& t.cache.last().id == id
            &&& t.cache.last().resource == resource
            &&& t.cache.last().expires_at == now + ttl
            &&& t.registrations == s.registrations
        },
        concluded(s, id, Err(message), now, ttl, max_bytes).cache == s.cache,
        concluded(s, id, Err(message), now, ttl, max_bytes).registrations == s.registrations,
        concluded(s, id, Err(message), now, ttl, max_bytes) == resources::finished(
            s,
            id,
            Some(message@),
            now,
        ),
        resources::cache_fault(s, id, resource.bytes@.len(), max_bytes) matches Some(m) ==> {
            let t = concluded(s, id, Ok(resource), now, ttl, max_bytes);
            t == resources::finished(s, id, Some(m), now) && t.cache == s.cache
        },
{
}

/// A refused request is told why.
pub proof fn refused_resource_requests_are_told(
    id: Seq<char>,
    max_bytes: u32,
    offset: nat,
    len: nat,
)
    ensures
        text::blank(id) ==> request_fault(id, max_bytes) == Some("resource_id must not be empty"@),
        !text::blank(id) && max_bytes > 524_288 ==> request_fault(id, max_bytes) == Some(
            "resource max_bytes "@ + text::numeral(max_bytes as nat) + " exceeds maximum "@
                + text::numeral(524_288),
        ),
        beyond_end(offset, len) == "resource offset "@ + text::numeral(offset)
            + " exceeds total size "@ + text::numeral(len),
{
}

} // verus!
