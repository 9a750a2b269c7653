//! Resources that snapshots refer to: which addresses are registered, which bytes are
//! kept, and which fetches are under way.
//!
//! Moments and spans are in nanoseconds of a clock that does not go back.

use std::sync::Arc;
use vstd::prelude::*;
use crate::station;
use crate::text;

verus! {

/// How long bytes are kept, in nanoseconds.
pub const DEFAULT_TTL: u128 = 900_000_000_000;

/// How many bytes are kept at most.
pub const DEFAULT_MAX_BYTES: usize = 32 * 1024 * 1024;

/// How many addresses are registered at most.
pub const DEFAULT_MAX_REGISTRATIONS: usize = 4_096;

/// How long a failed fetch is remembered, in nanoseconds.
pub const FAILED_FETCH_TTL: u128 = 5_000_000_000;

/// The bytes of a resource and their media type.
#[derive(Debug)]
pub struct ProviderResource {
    pub content_type: String,
    pub bytes: Arc<Vec<u8>>,
}

impl Clone for ProviderResource {
    fn clone(&self) -> (r: Self)
        ensures
            r == *self,
    {
        ProviderResource { content_type: self.content_type.clone(), bytes: self.bytes.clone() }
    }
}

/// A registered address and when it was last used.
#[derive(Debug)]
pub struct Registration {
    id: String,
    source_url: String,
    last_used: u64,
}

/// Kept bytes, until when they are kept and when they were last used.
#[derive(Debug)]
pub struct CacheEntry {
    id: String,
    resource: ProviderResource,
    expires_at: u128,
    last_used: u64,
}

/// A fetch that is under way, or that failed and is remembered for a while.
#[derive(Debug)]
pub struct FetchEntry {
    id: String,
    failure: Option<(String, u128)>,
}

/// A registered address.
pub struct RegistrationView {
    pub id: Seq<char>,
    pub url: Seq<char>,
    pub last_used: u64,
}

/// Kept bytes.
pub struct CacheView {
    pub id: Seq<char>,
    pub resource: ProviderResource,
    pub expires_at: u128,
    pub last_used: u64,
}

/// A fetch: under way, or failed with a message that is remembered until a moment.
pub struct FetchView {
    pub id: Seq<char>,
    pub failure: Option<(Seq<char>, u128)>,
}

/// All that is known of resources at one moment.
pub struct ManagerView {
    pub registrations: Seq<RegistrationView>,
    pub cache: Seq<CacheView>,
    pub fetches: Seq<FetchView>,
    pub sequence: u64,
}

impl View for Registration {
    type V = RegistrationView;

    closed spec fn view(&self) -> RegistrationView {
        RegistrationView { id: self.id@, url: self.source_url@, last_used: self.last_used }
    }
}

impl View for CacheEntry {
    type V = CacheView;

    closed spec fn view(&self) -> CacheView {
        CacheView {
            id: self.id@,
            resource: self.resource,
            expires_at: self.expires_at,
            last_used: self.last_used,
        }
    }
}

impl View for FetchEntry {
    type V = FetchView;

    closed spec fn view(&self) -> FetchView {
        FetchView {
            id: self.id@,
            failure: match self.failure {
                Some((message, until)) => Some((message@, until)),
                None => None,
            },
        }
    }
}

/// The first place of the id among the ids.
pub open spec fn place(ids: Seq<Seq<char>>, id: Seq<char>) -> Option<int>
    decreases ids.len(),
{
    if ids.len() == 0 {
        None
    } else {
        match place(ids.drop_last(), id) {
            Some(i) => Some(i),
            None => if ids.last() == id {
                Some(ids.len() - 1)
            } else {
                None
            },
        }
    }
}

/// The ids of the registrations.
pub open spec fn registration_ids(rs: Seq<RegistrationView>) -> Seq<Seq<char>> {
    Seq::new(rs.len(), |i: int| rs[i].id)
}

/// The ids of the kept bytes.
pub open spec fn cache_ids(cs: Seq<CacheView>) -> Seq<Seq<char>> {
    Seq::new(cs.len(), |i: int| cs[i].id)
}

/// The ids of the fetches.
pub open spec fn fetch_ids(fs: Seq<FetchView>) -> Seq<Seq<char>> {
    Seq::new(fs.len(), |i: int| fs[i].id)
}

/// The place of the id among the registrations.
pub open spec fn registered_at(rs: Seq<RegistrationView>, id: Seq<char>) -> Option<int> {
    place(registration_ids(rs), id)
}

/// The place of the id among the kept bytes.
pub open spec fn cached_at(cs: Seq<CacheView>, id: Seq<char>) -> Option<int> {
    place(cache_ids(cs), id)
}

/// The place of the id among the fetches.
pub open spec fn fetching_at(fs: Seq<FetchView>, id: Seq<char>) -> Option<int> {
    place(fetch_ids(fs), id)
}

/// A fetch of the resource is under way.
pub open spec fn under_way(fs: Seq<FetchView>, id: Seq<char>) -> bool {
    fetching_at(fs, id) matches Some(i) && fs[i].failure is None
}

/// The kept bytes without those of the id.
pub open spec fn cache_without(cs: Seq<CacheView>, id: Seq<char>) -> Seq<CacheView> {
    match cached_at(cs, id) {
        Some(i) => cs.remove(i),
        None => cs,
    }
}

/// The fetches without that of the id.
pub open spec fn fetches_without(fs: Seq<FetchView>, id: Seq<char>) -> Seq<FetchView> {
    match fetching_at(fs, id) {
        Some(i) => fs.remove(i),
        None => fs,
    }
}

/// How many bytes are kept.
pub open spec fn total(cs: Seq<CacheView>) -> nat
    decreases cs.len(),
{
    if cs.len() == 0 {
        0
    } else {
        total(cs.drop_last()) + cs.last().resource.bytes@.len()
    }
}

/// The next number in the order of use.
pub open spec fn following(sequence: u64) -> u64 {
    if sequence == u64::MAX {
        0
    } else {
        (sequence + 1) as u64
    }
}

/// Of the first `n` registrations, the one that was not used for the longest time,
/// among those without a fetch under way.
pub open spec fn oldest_idle(
    rs: Seq<RegistrationView>,
    fs: Seq<FetchView>,
    n: nat,
) -> Option<int>
    decreases n,
{
    if n == 0 {
        None
    } else {
        let so_far = oldest_idle(rs, fs, (n - 1) as nat);
        if under_way(fs, rs[n - 1].id) {
            so_far
        } else {
            match so_far {
                Some(i) => if rs[n - 1].last_used < rs[i].last_used {
                    Some(n - 1)
                } else {
                    so_far
                },
                None => Some(n - 1),
            }
        }
    }
}

/// Of the first `n` kept resources, the one that was not used for the longest time.
pub open spec fn oldest_kept(cs: Seq<CacheView>, n: nat) -> Option<int>
    decreases n,
{
    if n == 0 {
        None
    } else {
        match oldest_kept(cs, (n - 1) as nat) {
            Some(i) => if cs[n - 1].last_used < cs[i].last_used {
                Some(n - 1)
            } else {
                Some(i)
            },
            None => Some(n - 1),
        }
    }
}

/// The kept resources after the longest unused are dropped, one by one, until the rest
/// has at most `room` bytes.
pub open spec fn shrunk(cs: Seq<CacheView>, room: int) -> Seq<CacheView>
    decreases cs.len(),
{
    if total(cs) <= room {
        cs
    } else {
        match oldest_kept(cs, cs.len()) {
            Some(i) => if 0 <= i < cs.len() {
                shrunk(cs.remove(i), room)
            } else {
                cs
            },
            None => cs,
        }
    }
}

/// The kept resources whose time is not up.
pub open spec fn unexpired(cs: Seq<CacheView>, now: u128) -> Seq<CacheView>
    decreases cs.len(),
{
    if cs.len() == 0 {
        Seq::<CacheView>::empty()
    } else if cs.last().expires_at <= now {
        unexpired(cs.drop_last(), now)
    } else {
        unexpired(cs.drop_last(), now).push(cs.last())
    }
}

/// What follows from the wish to read a resource.
#[derive(Debug)]
pub enum ResourceFetchPlan {
    /// The bytes are there.
    Ready(ProviderResource),
    /// The bytes are to be fetched from this address.
    Start { source_url: String },
    /// A fetch is under way.
    Pending,
    /// A fetch failed a moment ago.
    Failed(String),
    /// No such resource is registered.
    Missing,
}

/// What follows from the wish to read a resource.
pub enum PlanView {
    Ready(ProviderResource),
    Start(Seq<char>),
    Pending,
    Failed(Seq<char>),
    Missing,
}

impl View for ResourceFetchPlan {
    type V = PlanView;

    open spec fn view(&self) -> PlanView {
        match *self {
            ResourceFetchPlan::Ready(r) => PlanView::Ready(r),
            ResourceFetchPlan::Start { source_url } => PlanView::Start(source_url@),
            ResourceFetchPlan::Pending => PlanView::Pending,
            ResourceFetchPlan::Failed(m) => PlanView::Failed(m@),
            ResourceFetchPlan::Missing => PlanView::Missing,
        }
    }
}

/// Registrations, kept bytes and fetches of resources.
#[derive(Debug)]
pub struct ResourceManager {
    registrations: Vec<Registration>,
    cache: Vec<CacheEntry>,
    fetches: Vec<FetchEntry>,
    cache_bytes: usize,
    sequence: u64,
    ttl: u128,
    max_bytes: usize,
    max_registrations: usize,
}

impl View for ResourceManager {
    type V = ManagerView;

    closed spec fn view(&self) -> ManagerView {
        ManagerView {
            registrations: Seq::new(self.registrations@.len(), |i: int| self.registrations@[i]@),
            cache: Seq::new(self.cache@.len(), |i: int| self.cache@[i]@),
            fetches: Seq::new(self.fetches@.len(), |i: int| self.fetches@[i]@),
            sequence: self.sequence,
        }
    }
}

/// The id of the resource at an address.
pub open spec fn resource_id(uuid: Seq<char>) -> Seq<char> {
    "resource-"@ + uuid
}

/// The state after an address was registered under an id, and whether it was.
pub open spec fn registered(
    s: ManagerView,
    max_registrations: usize,
    id: Seq<char>,
    url: Seq<char>,
) -> (ManagerView, bool) {
    let used = following(s.sequence);
    match registered_at(s.registrations, id) {
        Some(i) => if s.registrations[i].url == url {
            (
                ManagerView {
                    registrations: s.registrations.update(
                        i,
                        RegistrationView { last_used: used, ..s.registrations[i] },
                    ),
                    sequence: used,
                    ..s
                },
                true,
            )
        } else {
            (ManagerView { sequence: used, ..s }, false)
        },
        None => {
            let entry = RegistrationView { id, url, last_used: used };
            if s.registrations.len() < max_registrations {
                (
                    ManagerView {
                        registrations: s.registrations.push(entry),
                        sequence: used,
                        ..s
                    },
                    true,
                )
            } else {
                match oldest_idle(s.registrations, s.fetches, s.registrations.len()) {
                    None => (ManagerView { sequence: used, ..s }, false),
                    Some(k) => {
                        let gone = s.registrations[k].id;
                        (
                            ManagerView {
                                registrations: s.registrations.remove(k).push(entry),
                                cache: cache_without(s.cache, gone),
                                fetches: fetches_without(s.fetches, gone),
                                sequence: used,
                            },
                            true,
                        )
                    },
                }
            }
        },
    }
}

/// An address is registered: `t` is the state afterwards, `id` the id of the resource. A
/// blank address has none, and neither has an address for which there is no room.
pub open spec fn registers<F: Fn(&str) -> String>(
    s: ManagerView,
    max_registrations: usize,
    source_url: Seq<char>,
    uuid_of: F,
    t: ManagerView,
    id: Option<Seq<char>>,
) -> bool {
    let url = text::trimmed(source_url);
    if text::blank(source_url) || max_registrations == 0 {
        id is None && t == s
    } else {
        exists|uuid: Seq<char>|
            #![trigger station::identified(uuid_of, text::trimmed(source_url), uuid)]
            station::identified(uuid_of, url, uuid) && t == registered(
                s,
                max_registrations,
                resource_id(uuid),
                url,
            ).0 && id == if registered(s, max_registrations, resource_id(uuid), url).1 {
                Some(resource_id(uuid))
            } else {
                None
            }
    }
}

/// The state after a wish to read a resource, and what follows.
pub open spec fn begun(s: ManagerView, id: Seq<char>, now: u128) -> (ManagerView, PlanView) {
    let used = following(s.sequence);
    match registered_at(s.registrations, id) {
        None => (ManagerView { sequence: used, ..s }, PlanView::Missing),
        Some(r) => {
            let registrations = s.registrations.update(
                r,
                RegistrationView { last_used: used, ..s.registrations[r] },
            );
            let cache = match cached_at(s.cache, id) {
                Some(c) => if s.cache[c].expires_at <= now {
                    s.cache.remove(c)
                } else {
                    s.cache.update(c, CacheView { last_used: used, ..s.cache[c] })
                },
                None => s.cache,
            };
            let t = ManagerView { registrations, cache, sequence: used, ..s };
            if cached_at(s.cache, id) matches Some(c) && s.cache[c].expires_at > now {
                (t, PlanView::Ready(s.cache[cached_at(s.cache, id)->0].resource))
            } else {
                match fetching_at(s.fetches, id) {
                    None => (
                        ManagerView { fetches: s.fetches.push(FetchView { id, failure: None }), ..t },
                        PlanView::Start(s.registrations[r].url),
                    ),
                    Some(f) => match s.fetches[f].failure {
                        None => (t, PlanView::Pending),
                        Some((message, until)) => if until <= now {
                            (
                                ManagerView {
                                    fetches: s.fetches.remove(f).push(
                                        FetchView { id, failure: None },
                                    ),
                                    ..t
                                },
                                PlanView::Start(s.registrations[r].url),
                            )
                        } else {
                            (t, PlanView::Failed(message))
                        },
                    },
                }
            }
        },
    }
}

/// The state after a fetch ended.
pub open spec fn finished(
    s: ManagerView,
    id: Seq<char>,
    error: Option<Seq<char>>,
    now: u128,
) -> ManagerView {
    if registered_at(s.registrations, id) is None || error is None {
        ManagerView { fetches: fetches_without(s.fetches, id), ..s }
    } else {
        let entry = FetchView { id, failure: Some((error->0, (now + FAILED_FETCH_TTL) as u128)) };
        match fetching_at(s.fetches, id) {
            Some(f) => ManagerView { fetches: s.fetches.update(f, entry), ..s },
            None => ManagerView { fetches: s.fetches.push(entry), ..s },
        }
    }
}

/// Why bytes are not kept, if they are not.
pub open spec fn cache_fault(
    s: ManagerView,
    id: Seq<char>,
    len: nat,
    max_bytes: usize,
) -> Option<Seq<char>> {
    if len > max_bytes {
        Some(
            "resource `"@ + id + "` is "@ + text::numeral(len) + " bytes, exceeding the "@
                + text::numeral(max_bytes as nat) + " byte cache limit"@,
        )
    } else if registered_at(s.registrations, id) is None {
        Some("resource `"@ + id + "` is not registered"@)
    } else {
        None
    }
}

/// The state after bytes were kept: what has expired is dropped, what was kept for the
/// resource before is dropped, and of the rest the longest unused until the new bytes
/// have room.
pub open spec fn kept(
    s: ManagerView,
    id: Seq<char>,
    resource: ProviderResource,
    now: u128,
    ttl: u128,
    max_bytes: usize,
) -> ManagerView {
    let used = following(s.sequence);
    let rest = shrunk(
        cache_without(unexpired(s.cache, now), id),
        max_bytes - resource.bytes@.len(),
    );
    ManagerView {
        cache: rest.push(
            CacheView { id, resource, expires_at: (now + ttl) as u128, last_used: used },
        ),
        sequence: used,
        ..s
    }
}

/// The state after kept bytes were read, and the bytes.
pub open spec fn read(s: ManagerView, id: Seq<char>, now: u128) -> (
    ManagerView,
    Option<ProviderResource>,
) {
    let used = following(s.sequence);
    match cached_at(s.cache, id) {
        None => (ManagerView { sequence: used, ..s }, None),
        Some(c) => if s.cache[c].expires_at <= now {
            (ManagerView { cache: s.cache.remove(c), ..s }, None)
        } else {
            (
                ManagerView {
                    cache: s.cache.update(c, CacheView { last_used: used, ..s.cache[c] }),
                    sequence: used,
                    ..s
                },
                Some(s.cache[c].resource),
            )
        },
    }
}

/// The state after the address of a resource was looked up, and the address.
pub open spec fn addressed(s: ManagerView, id: Seq<char>) -> (ManagerView, Option<Seq<char>>) {
    let used = following(s.sequence);
    match registered_at(s.registrations, id) {
        None => (ManagerView { sequence: used, ..s }, None),
        Some(i) => (
            ManagerView {
                registrations: s.registrations.update(
                    i,
                    RegistrationView { last_used: used, ..s.registrations[i] },
                ),
                sequence: used,
                ..s
            },
            Some(s.registrations[i].url),
        ),
    }
}

/// No id occurs twice.
pub open spec fn unique(ids: Seq<Seq<char>>) -> bool {
    forall|i: int, j: int| 0 <= i < j < ids.len() ==> #[trigger] ids[i] != #[trigger] ids[j]
}

/// Every one of the ids is registered.
pub open spec fn all_registered(ids: Seq<Seq<char>>, rs: Seq<RegistrationView>) -> bool {
    forall|i: int|
        0 <= i < ids.len() ==> registration_ids(rs).contains(#[trigger] ids[i])
}

/// When the registrations were last used.
pub open spec fn registration_uses(rs: Seq<RegistrationView>) -> Seq<u64> {
    Seq::new(rs.len(), |i: int| rs[i].last_used)
}

/// When the kept bytes were last used.
pub open spec fn cache_uses(cs: Seq<CacheView>) -> Seq<u64> {
    Seq::new(cs.len(), |i: int| cs[i].last_used)
}

/// No two of the numbers are the same.
pub open spec fn distinct(uses: Seq<u64>) -> bool {
    forall|i: int, j: int| 0 <= i < j < uses.len() ==> #[trigger] uses[i] != #[trigger] uses[j]
}

/// None of the numbers is above the last one that was given.
pub open spec fn given(uses: Seq<u64>, sequence: u64) -> bool {
    forall|i: int| 0 <= i < uses.len() ==> #[trigger] uses[i] <= sequence
}

/// Uses are told apart: no two registrations, and no two kept resources, were last used at
/// once. This holds from the start on until the numbers begin anew.
pub open spec fn told_apart(s: ManagerView) -> bool {
    &&& distinct(registration_uses(s.registrations))
    &&& distinct(cache_uses(s.cache))
    &&& given(registration_uses(s.registrations), s.sequence)
    &&& given(cache_uses(s.cache), s.sequence)
}

/// What holds at every moment: each id stands once, only registered resources are kept
/// and fetched, and the limits are not exceeded.
pub open spec fn sound(s: ManagerView, max_bytes: usize, max_registrations: usize) -> bool {
    &&& unique(registration_ids(s.registrations))
    &&& unique(cache_ids(s.cache))
    &&& unique(fetch_ids(s.fetches))
    &&& s.registrations.len() <= max_registrations
    &&& total(s.cache) <= max_bytes
    &&& all_registered(cache_ids(s.cache), s.registrations)
    &&& all_registered(fetch_ids(s.fetches), s.registrations)
}

proof fn lemma_place_found(ids: Seq<Seq<char>>, id: Seq<char>, i: int)
    requires
        0 <= i < ids.len(),
        ids[i] == id,
        forall|j: int| 0 <= j < i ==> #[trigger] ids[j] != id,
    ensures
        place(ids, id) == Some(i),
    decreases ids.len(),
{
    if i < ids.len() - 1 {
        lemma_place_found(ids.drop_last(), id, i);
    } else {
        lemma_place_absent(ids.drop_last(), id);
    }
}

proof fn lemma_place_absent(ids: Seq<Seq<char>>, id: Seq<char>)
    requires
        forall|j: int| 0 <= j < ids.len() ==> #[trigger] ids[j] != id,
    ensures
        place(ids, id) is None,
    decreases ids.len(),
{
    if ids.len() > 0 {
        lemma_place_absent(ids.drop_last(), id);
    }
}

pub(crate) proof fn lemma_place(ids: Seq<Seq<char>>, id: Seq<char>)
    ensures
        place(ids, id) is Some <==> ids.contains(id),
        place(ids, id) matches Some(i) ==> 0 <= i < ids.len() && ids[i] == id,
    decreases ids.len(),
{
    if ids.len() > 0 {
        lemma_place(ids.drop_last(), id);
        if ids.contains(id) {
            let k = choose|k: int| 0 <= k < ids.len() && ids[k] == id;
            if k < ids.len() - 1 {
                assert(ids.drop_last()[k] == id);
            }
        }
        match place(ids.drop_last(), id) {
            Some(i) => {
                assert(ids[i] == id);
            },
            None => {},
        }
    }
}

proof fn lemma_total_remove(cs: Seq<CacheView>, i: int)
    requires
        0 <= i < cs.len(),
    ensures
        total(cs.remove(i)) + cs[i].resource.bytes@.len() == total(cs),
    decreases cs.len(),
{
    if i == cs.len() - 1 {
        assert(cs.remove(i) =~= cs.drop_last());
    } else {
        lemma_total_remove(cs.drop_last(), i);
        assert(cs.remove(i).drop_last() =~= cs.drop_last().remove(i));
        assert(cs.remove(i).last() == cs.last());
    }
}

proof fn lemma_total_update(cs: Seq<CacheView>, i: int, c: CacheView)
    requires
        0 <= i < cs.len(),
        c.resource == cs[i].resource,
    ensures
        total(cs.update(i, c)) == total(cs),
    decreases cs.len(),
{
    if i == cs.len() - 1 {
        assert(cs.update(i, c).drop_last() =~= cs.drop_last());
    } else {
        lemma_total_update(cs.drop_last(), i, c);
        assert(cs.update(i, c).drop_last() =~= cs.drop_last().update(i, c));
        assert(cs.update(i, c).last() == cs.last());
    }
}

proof fn lemma_total_push(cs: Seq<CacheView>, c: CacheView)
    ensures
        total(cs.push(c)) == total(cs) + c.resource.bytes@.len(),
{
    assert(cs.push(c).drop_last() =~= cs);
}

/// The kept resources `ds` are some of `cs`, each id once if it was so before.
spec fn some_of(ds: Seq<CacheView>, cs: Seq<CacheView>) -> bool {
    &&& forall|i: int| 0 <= i < ds.len() ==> cs.contains(#[trigger] ds[i])
    &&& unique(cache_ids(cs)) ==> unique(cache_ids(ds))
    &&& total(ds) <= total(cs)
}

proof fn lemma_removed_are_some(cs: Seq<CacheView>, k: int)
    requires
        0 <= k < cs.len(),
    ensures
        some_of(cs.remove(k), cs),
{
    let ds = cs.remove(k);
    lemma_total_remove(cs, k);
    assert forall|i: int| 0 <= i < ds.len() implies cs.contains(#[trigger] ds[i]) by {
        if i < k {
            assert(cs[i] == ds[i]);
        } else {
            assert(cs[i + 1] == ds[i]);
        }
    }
    if unique(cache_ids(cs)) {
        assert forall|i: int, j: int| 0 <= i < j < cache_ids(ds).len() implies #[trigger] cache_ids(
            ds,
        )[i] != #[trigger] cache_ids(ds)[j] by {
            let a = if i < k {
                i
            } else {
                i + 1
            };
            let b = if j < k {
                j
            } else {
                j + 1
            };
            assert(cache_ids(cs)[a] != cache_ids(cs)[b]);
        }
    }
}

proof fn lemma_some_of_some(ds: Seq<CacheView>, cs: Seq<CacheView>, bs: Seq<CacheView>)
    requires
        some_of(ds, cs),
        some_of(cs, bs),
    ensures
        some_of(ds, bs),
{
    assert forall|i: int| 0 <= i < ds.len() implies bs.contains(#[trigger] ds[i]) by {
        assert(cs.contains(ds[i]));
        let j = choose|j: int| 0 <= j < cs.len() && cs[j] == ds[i];
        assert(bs.contains(cs[j]));
    }
}

proof fn lemma_all_are_some(cs: Seq<CacheView>)
    ensures
        some_of(cs, cs),
{
    assert forall|i: int| 0 <= i < cs.len() implies cs.contains(#[trigger] cs[i]) by {}
}

proof fn lemma_unexpired(cs: Seq<CacheView>, now: u128)
    ensures
        some_of(unexpired(cs, now), cs),
        forall|i: int|
            0 <= i < unexpired(cs, now).len() ==> (#[trigger] unexpired(cs, now)[i]).expires_at
                > now,
    decreases cs.len(),
{
    if cs.len() > 0 {
        let t = cs.drop_last();
        let last = cs.last();
        lemma_unexpired(t, now);
        let u = unexpired(t, now);
        let ds = unexpired(cs, now);
        assert forall|i: int| 0 <= i < ds.len() implies cs.contains(#[trigger] ds[i]) by {
            if i < u.len() {
                assert(ds[i] == u[i]);
                assert(t.contains(u[i]));
                let j = choose|j: int| 0 <= j < t.len() && t[j] == u[i];
                assert(cs[j] == u[i]);
            } else {
                assert(cs[cs.len() - 1] == ds[i]);
            }
        }
        if last.expires_at > now {
            lemma_total_push(u, last);
        }
        if unique(cache_ids(cs)) {
            assert(unique(cache_ids(t))) by {
                assert forall|i: int, j: int| 0 <= i < j < cache_ids(t).len() implies
                    #[trigger] cache_ids(t)[i] != #[trigger] cache_ids(t)[j] by {
                    assert(cache_ids(cs)[i] != cache_ids(cs)[j]);
                }
            }
            assert forall|i: int, j: int| 0 <= i < j < cache_ids(ds).len() implies
                #[trigger] cache_ids(ds)[i] != #[trigger] cache_ids(ds)[j] by {
                if j < u.len() {
                    assert(cache_ids(u)[i] != cache_ids(u)[j]);
                } else {
                    assert(t.contains(u[i]));
                    let k = choose|k: int| 0 <= k < t.len() && t[k] == u[i];
                    assert(cache_ids(cs)[k] != cache_ids(cs)[cs.len() - 1]);
                }
            }
        }
    }
}

proof fn lemma_oldest_kept(cs: Seq<CacheView>, n: nat)
    requires
        n <= cs.len(),
    ensures
        n > 0 ==> oldest_kept(cs, n) is Some,
        oldest_kept(cs, n) matches Some(i) ==> {
            &&& 0 <= i < n
            &&& forall|k: int| 0 <= k < n ==> cs[i].last_used <= (#[trigger] cs[k]).last_used
        },
    decreases n,
{
    if n > 0 {
        lemma_oldest_kept(cs, (n - 1) as nat);
    }
}

proof fn lemma_shrunk(cs: Seq<CacheView>, room: int)
    requires
        room >= 0,
    ensures
        some_of(shrunk(cs, room), cs),
        total(shrunk(cs, room)) <= room,
    decreases cs.len(),
{
    if total(cs) <= room {
        lemma_all_are_some(cs);
    } else {
        lemma_oldest_kept(cs, cs.len());
        let i = oldest_kept(cs, cs.len())->0;
        lemma_shrunk(cs.remove(i), room);
        lemma_removed_are_some(cs, i);
        lemma_some_of_some(shrunk(cs.remove(i), room), cs.remove(i), cs);
    }
}

/// Making room drops the longest unused first: what stays was used no earlier than
/// anything that goes, and later where uses are told apart.
pub proof fn what_stays_was_used_last(cs: Seq<CacheView>, room: int, stays: int, gone: int)
    requires
        room >= 0,
        unique(cache_ids(cs)),
        0 <= stays < cs.len(),
        0 <= gone < cs.len(),
        shrunk(cs, room).contains(cs[stays]),
        !shrunk(cs, room).contains(cs[gone]),
    ensures
        cs[gone].last_used <= cs[stays].last_used,
        distinct(cache_uses(cs)) ==> cs[gone].last_used < cs[stays].last_used,
    decreases cs.len(),
{
    if distinct(cache_uses(cs)) {
        assert(stays != gone);
        assert(cache_uses(cs)[stays] == cs[stays].last_used);
        assert(cache_uses(cs)[gone] == cs[gone].last_used);
    }
    if total(cs) > room {
        lemma_oldest_kept(cs, cs.len());
        let i = oldest_kept(cs, cs.len())->0;
        let ds = cs.remove(i);
        lemma_removed_are_some(cs, i);
        lemma_shrunk(ds, room);
        if gone != i {
            if stays == i {
                assert(ds.contains(cs[stays]));
                let k = choose|k: int| 0 <= k < ds.len() && ds[k] == cs[stays];
                let a = if k < i {
                    k
                } else {
                    k + 1
                };
                assert(cs[a] == cs[i]);
                assert(cache_ids(cs)[a] == cache_ids(cs)[i]);
                assert(false);
            }
            let s2 = if stays < i {
                stays
            } else {
                stays - 1
            };
            let g2 = if gone < i {
                gone
            } else {
                gone - 1
            };
            assert(ds[s2] == cs[stays]);
            assert(ds[g2] == cs[gone]);
            what_stays_was_used_last(ds, room, s2, g2);
        }
    } else {
        assert(cs.contains(cs[gone]));
    }
}

proof fn lemma_cache_without(cs: Seq<CacheView>, id: Seq<char>)
    ensures
        some_of(cache_without(cs, id), cs),
        unique(cache_ids(cs)) ==> !cache_ids(cache_without(cs, id)).contains(id),
{
    lemma_place(cache_ids(cs), id);
    match cached_at(cs, id) {
        Some(i) => {
            lemma_removed_are_some(cs, i);
            let ds = cs.remove(i);
            if unique(cache_ids(cs)) && cache_ids(ds).contains(id) {
                let k = choose|k: int| 0 <= k < cache_ids(ds).len() && cache_ids(ds)[k] == id;
                let a = if k < i {
                    k
                } else {
                    k + 1
                };
                assert(cache_ids(cs)[a] == id);
                assert(cache_ids(cs)[i] == id);
                assert(false);
            }
        },
        None => {
            lemma_all_are_some(cs);
        },
    }
}

proof fn lemma_fetches_without(fs: Seq<FetchView>, id: Seq<char>)
    ensures
        forall|i: int|
            0 <= i < fetches_without(fs, id).len() ==> fs.contains(
                #[trigger] fetches_without(fs, id)[i],
            ),
        unique(fetch_ids(fs)) ==> unique(fetch_ids(fetches_without(fs, id))),
        unique(fetch_ids(fs)) ==> !fetch_ids(fetches_without(fs, id)).contains(id),
{
    lemma_place(fetch_ids(fs), id);
    let ds = fetches_without(fs, id);
    match fetching_at(fs, id) {
        Some(k) => {
            assert forall|i: int| 0 <= i < ds.len() implies fs.contains(#[trigger] ds[i]) by {
                if i < k {
                    assert(fs[i] == ds[i]);
                } else {
                    assert(fs[i + 1] == ds[i]);
                }
            }
            if unique(fetch_ids(fs)) {
                assert forall|i: int, j: int| 0 <= i < j < fetch_ids(ds).len() implies
                    #[trigger] fetch_ids(ds)[i] != #[trigger] fetch_ids(ds)[j] by {
                    let a = if i < k {
                        i
                    } else {
                        i + 1
                    };
                    let b = if j < k {
                        j
                    } else {
                        j + 1
                    };
                    assert(fetch_ids(fs)[a] != fetch_ids(fs)[b]);
                }
                if fetch_ids(ds).contains(id) {
                    let j = choose|j: int| 0 <= j < fetch_ids(ds).len() && fetch_ids(ds)[j] == id;
                    let b = if j < k {
                        j
                    } else {
                        j + 1
                    };
                    assert(fetch_ids(fs)[b] == id);
                    assert(fetch_ids(fs)[k] == id);
                    assert(false);
                }
            }
        },
        None => {
            assert forall|i: int| 0 <= i < ds.len() implies fs.contains(#[trigger] ds[i]) by {}
        },
    }
}

proof fn lemma_some_registered(
    ds: Seq<CacheView>,
    cs: Seq<CacheView>,
    rs: Seq<RegistrationView>,
)
    requires
        some_of(ds, cs),
        all_registered(cache_ids(cs), rs),
    ensures
        all_registered(cache_ids(ds), rs),
{
    assert forall|i: int| 0 <= i < cache_ids(ds).len() implies registration_ids(rs).contains(
        #[trigger] cache_ids(ds)[i],
    ) by {
        assert(cs.contains(ds[i]));
        let j = choose|j: int| 0 <= j < cs.len() && cs[j] == ds[i];
        assert(registration_ids(rs).contains(cache_ids(cs)[j]));
    }
}

proof fn lemma_oldest_idle(rs: Seq<RegistrationView>, fs: Seq<FetchView>, n: nat)
    requires
        n <= rs.len(),
    ensures
        oldest_idle(rs, fs, n) matches Some(i) ==> {
            &&& 0 <= i < n
            &&& !under_way(fs, rs[i].id)
            &&& forall|k: int|
                0 <= k < n && !under_way(fs, (#[trigger] rs[k]).id) ==> rs[i].last_used
                    <= rs[k].last_used
        },
        oldest_idle(rs, fs, n) is None ==> forall|k: int|
            0 <= k < n ==> under_way(fs, (#[trigger] rs[k]).id),
    decreases n,
{
    if n > 0 {
        lemma_oldest_idle(rs, fs, (n - 1) as nat);
    }
}

proof fn lemma_touched(rs: Seq<RegistrationView>, i: int, used: u64)
    requires
        0 <= i < rs.len(),
    ensures
        registration_ids(rs.update(i, RegistrationView { last_used: used, ..rs[i] }))
            == registration_ids(rs),
{
    assert(registration_ids(rs.update(i, RegistrationView { last_used: used, ..rs[i] }))
        =~= registration_ids(rs));
}

/// Registering keeps what holds at every moment.
pub proof fn registering_keeps_soundness(
    s: ManagerView,
    max_bytes: usize,
    max_registrations: usize,
    id: Seq<char>,
    url: Seq<char>,
)
    requires
        sound(s, max_bytes, max_registrations),
        max_registrations > 0,
    ensures
        sound(registered(s, max_registrations, id, url).0, max_bytes, max_registrations),
{
    let rs = s.registrations;
    let ids = registration_ids(rs);
    let t = registered(s, max_registrations, id, url).0;
    lemma_place(ids, id);
    match registered_at(rs, id) {
        Some(i) => {
            lemma_touched(rs, i, following(s.sequence));
        },
        None => {
            let entry = RegistrationView { id, url, last_used: following(s.sequence) };
            if rs.len() < max_registrations {
                assert(registration_ids(rs.push(entry)) =~= ids.push(id));
                lemma_pushed_ids(ids, id);
                lemma_still_registered(cache_ids(s.cache), rs, rs.push(entry));
                lemma_still_registered(fetch_ids(s.fetches), rs, rs.push(entry));
            } else {
                lemma_oldest_idle(rs, s.fetches, rs.len());
                match oldest_idle(rs, s.fetches, rs.len()) {
                    None => {},
                    Some(k) => {
                        let gone = rs[k].id;
                        assert(ids[k] == gone);
                        let left = rs.remove(k);
                        let left_ids = registration_ids(left);
                        assert(left_ids =~= ids.remove(k));
                        lemma_unique_remove(ids, k);
                        assert(!left_ids.contains(id)) by {
                            if left_ids.contains(id) {
                                let j = choose|j: int|
                                    0 <= j < left_ids.len() && left_ids[j] == id;
                                assert(ids[if j < k {
                                    j
                                } else {
                                    j + 1
                                }] == id);
                            }
                        }
                        assert(registration_ids(left.push(entry)) =~= left_ids.push(id));
                        lemma_pushed_ids(left_ids, id);
                        lemma_cache_without(s.cache, gone);
                        lemma_fetches_without(s.fetches, gone);
                        let cache = cache_without(s.cache, gone);
                        let fetches = fetches_without(s.fetches, gone);
                        lemma_some_registered(cache, s.cache, rs);
                        assert forall|i: int| 0 <= i < cache_ids(cache).len() implies
                            registration_ids(t.registrations).contains(
                            #[trigger] cache_ids(cache)[i],
                        ) by {
                            let c = cache_ids(cache)[i];
                            assert(ids.contains(c));
                            let j = choose|j: int| 0 <= j < ids.len() && ids[j] == c;
                            assert(c != gone) by {
                                if c == gone {
                                    assert(cache_ids(cache).contains(gone));
                                }
                            }
                            let j2 = if j < k {
                                j
                            } else {
                                j - 1
                            };
                            assert(registration_ids(t.registrations)[j2] == c);
                        }
                        assert forall|i: int| 0 <= i < fetch_ids(fetches).len() implies
                            registration_ids(t.registrations).contains(
                            #[trigger] fetch_ids(fetches)[i],
                        ) by {
                            let c = fetch_ids(fetches)[i];
                            assert(s.fetches.contains(fetches[i]));
                            let m = choose|m: int|
                                0 <= m < s.fetches.len() && s.fetches[m] == fetches[i];
                            assert(ids.contains(fetch_ids(s.fetches)[m]));
                            let j = choose|j: int| 0 <= j < ids.len() && ids[j] == c;
                            assert(c != gone) by {
                                if c == gone {
                                    assert(fetch_ids(fetches).contains(gone));
                                }
                            }
                            let j2 = if j < k {
                                j
                            } else {
                                j - 1
                            };
                            assert(registration_ids(t.registrations)[j2] == c);
                        }
                    },
                }
            }
        },
    }
}

proof fn lemma_pushed_ids(ids: Seq<Seq<char>>, id: Seq<char>)
    requires
        unique(ids),
        !ids.contains(id),
    ensures
        unique(ids.push(id)),
{
    assert forall|i: int, j: int| 0 <= i < j < ids.push(id).len() implies #[trigger] ids.push(
        id,
    )[i] != #[trigger] ids.push(id)[j] by {
        if j == ids.len() {
            assert(ids.contains(ids[i]));
        }
    }
}

proof fn lemma_unique_remove(ids: Seq<Seq<char>>, k: int)
    requires
        unique(ids),
        0 <= k < ids.len(),
    ensures
        unique(ids.remove(k)),
{
    let ds = ids.remove(k);
    assert forall|i: int, j: int| 0 <= i < j < ds.len() implies #[trigger] ds[i]
        != #[trigger] ds[j] by {
        let a = if i < k {
            i
        } else {
            i + 1
        };
        let b = if j < k {
            j
        } else {
            j + 1
        };
        assert(ids[a] != ids[b]);
    }
}

proof fn lemma_still_registered(
    ids: Seq<Seq<char>>,
    rs: Seq<RegistrationView>,
    qs: Seq<RegistrationView>,
)
    requires
        all_registered(ids, rs),
        qs.len() >= rs.len(),
        forall|i: int| 0 <= i < rs.len() ==> (#[trigger] rs[i]).id == qs[i].id,
    ensures
        all_registered(ids, qs),
{
    assert forall|i: int| 0 <= i < ids.len() implies registration_ids(qs).contains(
        #[trigger] ids[i],
    ) by {
        assert(registration_ids(rs).contains(ids[i]));
        let j = choose|j: int| 0 <= j < rs.len() && registration_ids(rs)[j] == ids[i];
        assert(rs[j].id == qs[j].id);
        assert(registration_ids(qs)[j] == ids[i]);
    }
}

proof fn lemma_cache_touched(cs: Seq<CacheView>, i: int, used: u64)
    requires
        0 <= i < cs.len(),
    ensures
        cache_ids(cs.update(i, CacheView { last_used: used, ..cs[i] })) == cache_ids(cs),
        total(cs.update(i, CacheView { last_used: used, ..cs[i] })) == total(cs),
{
    let c = CacheView { last_used: used, ..cs[i] };
    lemma_total_update(cs, i, c);
    assert(cache_ids(cs.update(i, c)) =~= cache_ids(cs));
}

proof fn lemma_fetch_pushed(
    fs: Seq<FetchView>,
    f: FetchView,
    rs: Seq<RegistrationView>,
)
    requires
        unique(fetch_ids(fs)),
        all_registered(fetch_ids(fs), rs),
        !fetch_ids(fs).contains(f.id),
        registration_ids(rs).contains(f.id),
    ensures
        unique(fetch_ids(fs.push(f))),
        all_registered(fetch_ids(fs.push(f)), rs),
{
    let ids = fetch_ids(fs);
    assert(fetch_ids(fs.push(f)) =~= ids.push(f.id));
    lemma_pushed_ids(ids, f.id);
    assert forall|i: int| 0 <= i < ids.push(f.id).len() implies registration_ids(rs).contains(
        #[trigger] ids.push(f.id)[i],
    ) by {
        if i < ids.len() {
            assert(registration_ids(rs).contains(ids[i]));
        }
    }
}

proof fn lemma_fetches_without_registered(
    fs: Seq<FetchView>,
    id: Seq<char>,
    rs: Seq<RegistrationView>,
)
    requires
        all_registered(fetch_ids(fs), rs),
    ensures
        all_registered(fetch_ids(fetches_without(fs, id)), rs),
{
    lemma_fetches_without(fs, id);
    let ds = fetches_without(fs, id);
    assert forall|i: int| 0 <= i < fetch_ids(ds).len() implies registration_ids(rs).contains(
        #[trigger] fetch_ids(ds)[i],
    ) by {
        assert(fs.contains(ds[i]));
        let j = choose|j: int| 0 <= j < fs.len() && fs[j] == ds[i];
        assert(registration_ids(rs).contains(fetch_ids(fs)[j]));
    }
}

/// The wish to read a resource keeps what holds at every moment.
pub proof fn beginning_keeps_soundness(
    s: ManagerView,
    max_bytes: usize,
    max_registrations: usize,
    id: Seq<char>,
    now: u128,
)
    requires
        sound(s, max_bytes, max_registrations),
    ensures
        sound(begun(s, id, now).0, max_bytes, max_registrations),
{
    let used = following(s.sequence);
    let t = begun(s, id, now).0;
    lemma_place(registration_ids(s.registrations), id);
    match registered_at(s.registrations, id) {
        None => {},
        Some(r) => {
            lemma_touched(s.registrations, r, used);
            lemma_place(cache_ids(s.cache), id);
            match cached_at(s.cache, id) {
                Some(c) => {
                    if s.cache[c].expires_at <= now {
                        lemma_removed_are_some(s.cache, c);
                        lemma_some_registered(s.cache.remove(c), s.cache, s.registrations);
                    } else {
                        lemma_cache_touched(s.cache, c, used);
                    }
                },
                None => {},
            }
            assert(registration_ids(t.registrations) == registration_ids(s.registrations));
            lemma_still_registered(cache_ids(t.cache), s.registrations, t.registrations);
            lemma_place(fetch_ids(s.fetches), id);
            match fetching_at(s.fetches, id) {
                None => {
                    lemma_fetch_pushed(
                        s.fetches,
                        FetchView { id, failure: None },
                        s.registrations,
                    );
                },
                Some(f) => {
                    lemma_fetches_without(s.fetches, id);
                    lemma_fetches_without_registered(s.fetches, id, s.registrations);
                    lemma_fetch_pushed(
                        s.fetches.remove(f),
                        FetchView { id, failure: None },
                        s.registrations,
                    );
                },
            }
            lemma_still_registered(fetch_ids(t.fetches), s.registrations, t.registrations);
        },
    }
}

/// The end of a fetch keeps what holds at every moment.
pub proof fn finishing_keeps_soundness(
    s: ManagerView,
    max_bytes: usize,
    max_registrations: usize,
    id: Seq<char>,
    error: Option<Seq<char>>,
    now: u128,
)
    requires
        sound(s, max_bytes, max_registrations),
    ensures
        sound(finished(s, id, error, now), max_bytes, max_registrations),
{
    lemma_place(registration_ids(s.registrations), id);
    lemma_place(fetch_ids(s.fetches), id);
    if registered_at(s.registrations, id) is None || error is None {
        lemma_fetches_without(s.fetches, id);
        lemma_fetches_without_registered(s.fetches, id, s.registrations);
    } else {
        let entry = FetchView { id, failure: Some((error->0, (now + FAILED_FETCH_TTL) as u128)) };
        match fetching_at(s.fetches, id) {
            Some(f) => {
                assert(fetch_ids(s.fetches.update(f, entry)) =~= fetch_ids(s.fetches));
            },
            None => {
                lemma_fetch_pushed(s.fetches, entry, s.registrations);
            },
        }
    }
}

/// Keeping bytes keeps what holds at every moment; above all, no more bytes are kept
/// than the limit allows.
pub proof fn keeping_keeps_soundness(
    s: ManagerView,
    max_bytes: usize,
    max_registrations: usize,
    id: Seq<char>,
    resource: ProviderResource,
    now: u128,
    ttl: u128,
)
    requires
        sound(s, max_bytes, max_registrations),
        cache_fault(s, id, resource.bytes@.len(), max_bytes) is None,
    ensures
        sound(kept(s, id, resource, now, ttl, max_bytes), max_bytes, max_registrations),
{
    let rs = s.registrations;
    let room = max_bytes - resource.bytes@.len();
    let live = unexpired(s.cache, now);
    let others = cache_without(live, id);
    let rest = shrunk(others, room);
    let c = CacheView {
        id,
        resource,
        expires_at: (now + ttl) as u128,
        last_used: following(s.sequence),
    };
    lemma_unexpired(s.cache, now);
    lemma_cache_without(live, id);
    lemma_shrunk(others, room);
    lemma_some_of_some(others, live, s.cache);
    lemma_some_of_some(rest, others, s.cache);
    lemma_some_registered(rest, s.cache, rs);
    lemma_total_push(rest, c);
    assert(!cache_ids(rest).contains(id)) by {
        if cache_ids(rest).contains(id) {
            let k = choose|k: int| 0 <= k < cache_ids(rest).len() && cache_ids(rest)[k] == id;
            assert(others.contains(rest[k]));
            let j = choose|j: int| 0 <= j < others.len() && others[j] == rest[k];
            assert(cache_ids(others)[j] == id);
        }
    }
    assert(cache_ids(rest.push(c)) =~= cache_ids(rest).push(id));
    lemma_pushed_ids(cache_ids(rest), id);
    lemma_place(registration_ids(rs), id);
    assert forall|i: int| 0 <= i < cache_ids(rest.push(c)).len() implies registration_ids(
        rs,
    ).contains(#[trigger] cache_ids(rest.push(c))[i]) by {
        if i < rest.len() {
            assert(registration_ids(rs).contains(cache_ids(rest)[i]));
        }
    }
}

/// Reading kept bytes keeps what holds at every moment.
pub proof fn reading_keeps_soundness(
    s: ManagerView,
    max_bytes: usize,
    max_registrations: usize,
    id: Seq<char>,
    now: u128,
)
    requires
        sound(s, max_bytes, max_registrations),
    ensures
        sound(read(s, id, now).0, max_bytes, max_registrations),
{
    lemma_place(cache_ids(s.cache), id);
    match cached_at(s.cache, id) {
        None => {},
        Some(c) => {
            if s.cache[c].expires_at <= now {
                lemma_removed_are_some(s.cache, c);
                lemma_some_registered(s.cache.remove(c), s.cache, s.registrations);
            } else {
                lemma_cache_touched(s.cache, c, following(s.sequence));
            }
        },
    }
}

proof fn lemma_uses_touched(uses: Seq<u64>, i: int, sequence: u64)
    requires
        distinct(uses),
        given(uses, sequence),
        sequence < u64::MAX,
        0 <= i < uses.len(),
    ensures
        distinct(uses.update(i, following(sequence))),
        given(uses.update(i, following(sequence)), following(sequence)),
{
    let after = uses.update(i, following(sequence));
    assert forall|a: int, b: int| 0 <= a < b < after.len() implies #[trigger] after[a]
        != #[trigger] after[b] by {
        assert(uses[a] != uses[b]);
        assert(uses[a] <= sequence && uses[b] <= sequence);
    }
    assert forall|a: int| 0 <= a < after.len() implies #[trigger] after[a] <= following(
        sequence,
    ) by {
        assert(uses[a] <= sequence);
    }
}

proof fn lemma_uses_added(uses: Seq<u64>, sequence: u64)
    requires
        distinct(uses),
        given(uses, sequence),
        sequence < u64::MAX,
    ensures
        distinct(uses.push(following(sequence))),
        given(uses.push(following(sequence)), following(sequence)),
{
    let after = uses.push(following(sequence));
    assert forall|a: int, b: int| 0 <= a < b < after.len() implies #[trigger] after[a]
        != #[trigger] after[b] by {
        assert(uses[a] <= sequence);
        if b < uses.len() {
            assert(uses[a] != uses[b]);
        }
    }
    assert forall|a: int| 0 <= a < after.len() implies #[trigger] after[a] <= following(
        sequence,
    ) by {
        if a < uses.len() {
            assert(uses[a] <= sequence);
        }
    }
}

proof fn lemma_uses_removed(uses: Seq<u64>, k: int, sequence: u64)
    requires
        distinct(uses),
        given(uses, sequence),
        0 <= k < uses.len(),
    ensures
        distinct(uses.remove(k)),
        given(uses.remove(k), sequence),
{
    let after = uses.remove(k);
    assert forall|a: int, b: int| 0 <= a < b < after.len() implies #[trigger] after[a]
        != #[trigger] after[b] by {
        let a2 = if a < k {
            a
        } else {
            a + 1
        };
        let b2 = if b < k {
            b
        } else {
            b + 1
        };
        assert(uses[a2] != uses[b2]);
    }
    assert forall|a: int| 0 <= a < after.len() implies #[trigger] after[a] <= sequence by {
        assert(uses[if a < k {
            a
        } else {
            a + 1
        }] <= sequence);
    }
}

proof fn lemma_some_told_apart(ds: Seq<CacheView>, cs: Seq<CacheView>, sequence: u64)
    requires
        some_of(ds, cs),
        unique(cache_ids(cs)),
        distinct(cache_uses(cs)),
        given(cache_uses(cs), sequence),
    ensures
        distinct(cache_uses(ds)),
        given(cache_uses(ds), sequence),
{
    assert forall|a: int| 0 <= a < ds.len() implies exists|k: int|
        0 <= k < cs.len() && cs[k] == #[trigger] ds[a] by {
        assert(cs.contains(ds[a]));
    }
    assert forall|a: int, b: int| 0 <= a < b < cache_uses(ds).len() implies #[trigger] cache_uses(
        ds,
    )[a] != #[trigger] cache_uses(ds)[b] by {
        let a2 = choose|k: int| 0 <= k < cs.len() && cs[k] == ds[a];
        let b2 = choose|k: int| 0 <= k < cs.len() && cs[k] == ds[b];
        assert(cache_ids(ds)[a] != cache_ids(ds)[b]);
        assert(a2 != b2);
        assert(cache_uses(cs)[a2] == cs[a2].last_used && cache_uses(cs)[b2] == cs[b2].last_used);
        if a2 < b2 {
            assert(cache_uses(cs)[a2] != cache_uses(cs)[b2]);
        } else {
            assert(cache_uses(cs)[b2] != cache_uses(cs)[a2]);
        }
    }
    assert forall|a: int| 0 <= a < cache_uses(ds).len() implies #[trigger] cache_uses(ds)[a]
        <= sequence by {
        let k = choose|k: int| 0 <= k < cs.len() && cs[k] == ds[a];
        assert(cache_uses(cs)[k] <= sequence);
    }
}

proof fn lemma_uses_go_on(s: ManagerView)
    requires
        told_apart(s),
        s.sequence < u64::MAX,
    ensures
        given(registration_uses(s.registrations), following(s.sequence)),
        given(cache_uses(s.cache), following(s.sequence)),
{
    assert forall|i: int| 0 <= i < s.registrations.len() implies #[trigger] registration_uses(
        s.registrations,
    )[i] <= following(s.sequence) by {
        assert(registration_uses(s.registrations)[i] <= s.sequence);
    }
    assert forall|i: int| 0 <= i < s.cache.len() implies #[trigger] cache_uses(s.cache)[i]
        <= following(s.sequence) by {
        assert(cache_uses(s.cache)[i] <= s.sequence);
    }
}

/// Registering keeps uses told apart until the numbers begin anew, and a registration that
/// makes room was used earlier than any other without a fetch under way.
pub proof fn registering_tells_uses_apart(
    s: ManagerView,
    max_bytes: usize,
    max_registrations: usize,
    id: Seq<char>,
    url: Seq<char>,
)
    requires
        sound(s, max_bytes, max_registrations),
        told_apart(s),
        s.sequence < u64::MAX,
    ensures
        told_apart(registered(s, max_registrations, id, url).0),
        oldest_idle(s.registrations, s.fetches, s.registrations.len()) matches Some(k) ==> 0 <= k
            < s.registrations.len() && forall|j: int|
            0 <= j < s.registrations.len() && j != k && !under_way(
                s.fetches,
                (#[trigger] s.registrations[j]).id,
            ) ==> s.registrations[k].last_used < s.registrations[j].last_used,
{
    let rs = s.registrations;
    let uses = registration_uses(rs);
    let used = following(s.sequence);
    let t = registered(s, max_registrations, id, url).0;
    lemma_uses_go_on(s);
    lemma_place(registration_ids(rs), id);
    lemma_oldest_idle(rs, s.fetches, rs.len());
    match oldest_idle(rs, s.fetches, rs.len()) {
        Some(k) => {
            assert forall|j: int|
                0 <= j < rs.len() && j != k && !under_way(s.fetches, (#[trigger] rs[j]).id) implies
                rs[k].last_used < rs[j].last_used by {
                assert(uses[k] == rs[k].last_used && uses[j] == rs[j].last_used);
                if j < k {
                    assert(uses[j] != uses[k]);
                } else {
                    assert(uses[k] != uses[j]);
                }
            }
        },
        None => {},
    }
    match registered_at(rs, id) {
        Some(i) => {
            lemma_uses_touched(uses, i, s.sequence);
            assert(registration_uses(rs.update(i, RegistrationView { last_used: used, ..rs[i] }))
                =~= uses.update(i, used));
        },
        None => {
            let entry = RegistrationView { id, url, last_used: used };
            if rs.len() < max_registrations {
                lemma_uses_added(uses, s.sequence);
                assert(registration_uses(rs.push(entry)) =~= uses.push(used));
            } else {
                match oldest_idle(rs, s.fetches, rs.len()) {
                    Some(k) => {
                        lemma_uses_removed(uses, k, s.sequence);
                        assert(registration_uses(rs.remove(k)) =~= uses.remove(k));
                        lemma_uses_added(uses.remove(k), s.sequence);
                        assert(registration_uses(rs.remove(k).push(entry)) =~= uses.remove(k).push(
                            used,
                        ));
                        lemma_cache_without(s.cache, rs[k].id);
                        lemma_some_told_apart(
                            cache_without(s.cache, rs[k].id),
                            s.cache,
                            used,
                        );
                    },
                    None => {},
                }
            }
        },
    }
}

/// Looking an address up, a wish to read, the reading of kept bytes and the end of a fetch
/// keep uses told apart until the numbers begin anew.
pub proof fn reading_tells_uses_apart(
    s: ManagerView,
    max_bytes: usize,
    max_registrations: usize,
    id: Seq<char>,
    error: Option<Seq<char>>,
    now: u128,
)
    requires
        sound(s, max_bytes, max_registrations),
        told_apart(s),
        s.sequence < u64::MAX,
    ensures
        told_apart(addressed(s, id).0),
        told_apart(begun(s, id, now).0),
        told_apart(read(s, id, now).0),
        told_apart(finished(s, id, error, now)),
{
    let used = following(s.sequence);
    let uses = cache_uses(s.cache);
    lemma_uses_go_on(s);
    lemma_place(registration_ids(s.registrations), id);
    lemma_place(cache_ids(s.cache), id);
    match registered_at(s.registrations, id) {
        Some(r) => {
            let rs = s.registrations;
            lemma_uses_touched(registration_uses(rs), r, s.sequence);
            assert(registration_uses(rs.update(r, RegistrationView { last_used: used, ..rs[r] }))
                =~= registration_uses(rs).update(r, used));
        },
        None => {},
    }
    match cached_at(s.cache, id) {
        Some(c) => {
            let cs = s.cache;
            lemma_uses_touched(uses, c, s.sequence);
            assert(cache_uses(cs.update(c, CacheView { last_used: used, ..cs[c] }))
                =~= uses.update(c, used));
            lemma_uses_removed(uses, c, s.sequence);
            lemma_uses_removed(uses, c, used);
            assert(cache_uses(cs.remove(c)) =~= uses.remove(c));
        },
        None => {},
    }
}

/// Keeping bytes keeps uses told apart until the numbers begin anew.
pub proof fn keeping_tells_uses_apart(
    s: ManagerView,
    max_bytes: usize,
    max_registrations: usize,
    id: Seq<char>,
    resource: ProviderResource,
    now: u128,
    ttl: u128,
)
    requires
        sound(s, max_bytes, max_registrations),
        told_apart(s),
        s.sequence < u64::MAX,
        resource.bytes@.len() <= max_bytes,
    ensures
        told_apart(kept(s, id, resource, now, ttl, max_bytes)),
{
    let used = following(s.sequence);
    let fresh = unexpired(s.cache, now);
    let others = cache_without(fresh, id);
    let room = max_bytes - resource.bytes@.len();
    let rest = shrunk(others, room);
    lemma_unexpired(s.cache, now);
    lemma_cache_without(fresh, id);
    lemma_shrunk(others, room);
    lemma_some_of_some(others, fresh, s.cache);
    lemma_some_of_some(rest, others, s.cache);
    lemma_some_told_apart(rest, s.cache, s.sequence);
    lemma_uses_added(cache_uses(rest), s.sequence);
    lemma_uses_go_on(s);
    let t = kept(s, id, resource, now, ttl, max_bytes);
    assert(cache_uses(t.cache) =~= cache_uses(rest).push(used));
}

/// A fetch starts once: while it is under way, every further wish to read the resource
/// waits for it.
pub proof fn a_fetch_starts_once(
    s: ManagerView,
    max_bytes: usize,
    max_registrations: usize,
    id: Seq<char>,
    now: u128,
    later: u128,
)
    requires
        sound(s, max_bytes, max_registrations),
        begun(s, id, now).1 is Start,
    ensures
        begun(begun(s, id, now).0, id, later).1 is Pending,
{
    let used = following(s.sequence);
    let t = begun(s, id, now).0;
    lemma_place(registration_ids(s.registrations), id);
    let r = registered_at(s.registrations, id)->0;
    lemma_touched(s.registrations, r, used);
    lemma_place(cache_ids(s.cache), id);
    lemma_cache_without(s.cache, id);
    assert(t.cache == cache_without(s.cache, id));
    lemma_place(cache_ids(t.cache), id);
    assert(cached_at(t.cache, id) is None);
    lemma_place(fetch_ids(s.fetches), id);
    lemma_fetches_without(s.fetches, id);
    let fs = fetches_without(s.fetches, id);
    assert(t.fetches == fs.push(FetchView { id, failure: None }));
    let ids = fetch_ids(t.fetches);
    let n = fs.len() as int;
    assert(ids[n] == id);
    assert forall|j: int| 0 <= j < n implies #[trigger] ids[j] != id by {
        assert(fetch_ids(fs)[j] == ids[j]);
        assert(!fetch_ids(fs).contains(id));
    }
    lemma_place_found(ids, id, n);
}

/// A resource whose fetch is under way stays registered when another address takes
/// the place of the longest unused one.
pub proof fn a_fetch_under_way_stays_registered(
    s: ManagerView,
    max_bytes: usize,
    max_registrations: usize,
    busy: Seq<char>,
    id: Seq<char>,
    url: Seq<char>,
)
    requires
        sound(s, max_bytes, max_registrations),
        under_way(s.fetches, busy),
        registered_at(s.registrations, busy) is Some,
    ensures
        registered_at(registered(s, max_registrations, id, url).0.registrations, busy) is Some,
{
    let rs = s.registrations;
    let ids = registration_ids(rs);
    let t = registered(s, max_registrations, id, url).0;
    lemma_place(ids, busy);
    lemma_place(ids, id);
    lemma_place(registration_ids(t.registrations), busy);
    let b = registered_at(rs, busy)->0;
    match registered_at(rs, id) {
        Some(i) => {
            lemma_touched(rs, i, following(s.sequence));
        },
        None => {
            if rs.len() < max_registrations {
                assert(registration_ids(t.registrations)[b] == busy);
            } else {
                lemma_oldest_idle(rs, s.fetches, rs.len());
                match oldest_idle(rs, s.fetches, rs.len()) {
                    None => {},
                    Some(k) => {
                        assert(rs[b].id == busy);
                        assert(k != b);
                        let b2 = if b < k {
                            b
                        } else {
                            b - 1
                        };
                        assert(registration_ids(t.registrations)[b2] == busy);
                    },
                }
            }
        },
    }
}

/// An address that was registered is found under its id, and registering it again gives
/// the same id.
pub proof fn a_registered_address_is_found(
    s: ManagerView,
    max_registrations: usize,
    id: Seq<char>,
    url: Seq<char>,
)
    requires
        registered(s, max_registrations, id, url).1,
    ensures
        ({
            let t = registered(s, max_registrations, id, url).0;
            &&& registered_at(t.registrations, id) matches Some(i)
            &&& 0 <= i < t.registrations.len()
            &&& t.registrations[i].url == url
            &&& registered(t, max_registrations, id, url).1
        }),
{
    let rs = s.registrations;
    let t = registered(s, max_registrations, id, url).0;
    let ids = registration_ids(t.registrations);
    lemma_place(registration_ids(rs), id);
    lemma_place(ids, id);
    match registered_at(rs, id) {
        Some(i) => {
            lemma_touched(rs, i, following(s.sequence));
        },
        None => {
            let last = t.registrations.len() - 1;
            assert(ids[last] == id);
            let i = registered_at(t.registrations, id)->0;
            if i < last {
                if rs.len() < max_registrations {
                    assert(registration_ids(rs)[i] == id);
                } else {
                    lemma_oldest_idle(rs, s.fetches, rs.len());
                    let k = oldest_idle(rs, s.fetches, rs.len())->0;
                    let j = if i < k {
                        i
                    } else {
                        i + 1
                    };
                    assert(registration_ids(rs)[j] == id);
                }
            }
        },
    }
}

/// Bytes that were kept are there for the next wish to read them, until their time is up.
pub proof fn kept_bytes_are_ready(
    s: ManagerView,
    max_bytes: usize,
    max_registrations: usize,
    id: Seq<char>,
    resource: ProviderResource,
    now: u128,
    ttl: u128,
    later: u128,
)
    requires
        sound(s, max_bytes, max_registrations),
        cache_fault(s, id, resource.bytes@.len(), max_bytes) is None,
        now + ttl <= u128::MAX,
        later < now + ttl,
    ensures
        begun(kept(s, id, resource, now, ttl, max_bytes), id, later).1 == PlanView::Ready(resource),
{
    let t = kept(s, id, resource, now, ttl, max_bytes);
    keeping_keeps_soundness(s, max_bytes, max_registrations, id, resource, now, ttl);
    let ids = cache_ids(t.cache);
    let n = t.cache.len() - 1;
    assert(ids[n] == id);
    assert forall|j: int| 0 <= j < n implies #[trigger] ids[j] != id by {
        assert(ids[j] != ids[n]);
    }
    lemma_place_found(ids, id, n);
}

impl ResourceManager {
    /// What holds at every moment, and the count of the kept bytes is right.
    pub closed spec fn wf(self) -> bool {
        &&& sound(self@, self.max_bytes, self.max_registrations)
        &&& self.cache_bytes == total(self@.cache)
    }

    /// How long bytes are kept.
    pub closed spec fn time_to_live(self) -> u128 {
        self.ttl
    }

    /// How many bytes are kept at most.
    pub closed spec fn byte_limit(self) -> usize {
        self.max_bytes
    }

    /// How many addresses are registered at most.
    pub closed spec fn registration_limit(self) -> usize {
        self.max_registrations
    }

    /// The limits are those of another manager.
    pub open spec fn same_limits(self, other: ResourceManager) -> bool {
        &&& self.time_to_live() == other.time_to_live()
        &&& self.byte_limit() == other.byte_limit()
        &&& self.registration_limit() == other.registration_limit()
    }

    /// What every manager has: what holds at every moment.
    pub proof fn always_sound(self)
        requires
            self.wf(),
        ensures
            sound(self@, self.byte_limit(), self.registration_limit()),
    {
    }

    /// A manager of nothing, with the given limits.
    pub fn with_limits(ttl: u128, max_bytes: usize, max_registrations: usize) -> (r:
        ResourceManager)
        ensures
            r.wf(),
            r@.registrations == Seq::<RegistrationView>::empty(),
            r@.cache == Seq::<CacheView>::empty(),
            r@.fetches == Seq::<FetchView>::empty(),
            r@.sequence == 0,
            told_apart(r@),
            r.time_to_live() == ttl,
            r.byte_limit() == max_bytes,
            r.registration_limit() == max_registrations,
    {
        let r = ResourceManager {
            registrations: Vec::new(),
            cache: Vec::new(),
            fetches: Vec::new(),
            cache_bytes: 0,
            sequence: 0,
            ttl,
            max_bytes,
            max_registrations,
        };
        assert(r@.registrations =~= Seq::<RegistrationView>::empty());
        assert(r@.cache =~= Seq::<CacheView>::empty());
        assert(r@.fetches =~= Seq::<FetchView>::empty());
        r
    }

    fn find_registration(&self, id: &str) -> (r: Option<usize>)
        ensures
            match r {
                Some(i) => i < self.registrations@.len() && registered_at(
                    self@.registrations,
                    id@,
                ) == Some(i as int),
                None => registered_at(self@.registrations, id@) is None,
            },
    {
        let ghost ids = registration_ids(self@.registrations);
        let mut i: usize = 0;
        while i < self.registrations.len()
            invariant
                i <= self.registrations@.len(),
                ids == registration_ids(self@.registrations),
                forall|j: int| 0 <= j < i ==> #[trigger] ids[j] != id@,
            decreases self.registrations@.len() - i,
        {
            assert(ids[i as int] == self.registrations@[i as int].id@);
            if text::same(self.registrations[i].id.as_str(), id) {
                proof {
                    lemma_place_found(ids, id@, i as int);
                }
                return Some(i);
            }
            i = i + 1;
        }
        proof {
            lemma_place_absent(ids, id@);
        }
        None
    }

    fn find_cached(&self, id: &str) -> (r: Option<usize>)
        ensures
            match r {
                Some(i) => i < self.cache@.len() && cached_at(self@.cache, id@) == Some(i as int),
                None => cached_at(self@.cache, id@) is None,
            },
    {
        let ghost ids = cache_ids(self@.cache);
        let mut i: usize = 0;
        while i < self.cache.len()
            invariant
                i <= self.cache@.len(),
                ids == cache_ids(self@.cache),
                forall|j: int| 0 <= j < i ==> #[trigger] ids[j] != id@,
            decreases self.cache@.len() - i,
        {
            assert(ids[i as int] == self.cache@[i as int].id@);
            if text::same(self.cache[i].id.as_str(), id) {
                proof {
                    lemma_place_found(ids, id@, i as int);
                }
                return Some(i);
            }
            i = i + 1;
        }
        proof {
            lemma_place_absent(ids, id@);
        }
        None
    }

    fn find_fetch(&self, id: &str) -> (r: Option<usize>)
        ensures
            match r {
                Some(i) => i < self.fetches@.len() && fetching_at(self@.fetches, id@) == Some(
                    i as int,
                ),
                None => fetching_at(self@.fetches, id@) is None,
            },
    {
        let ghost ids = fetch_ids(self@.fetches);
        let mut i: usize = 0;
        while i < self.fetches.len()
            invariant
                i <= self.fetches@.len(),
                ids == fetch_ids(self@.fetches),
                forall|j: int| 0 <= j < i ==> #[trigger] ids[j] != id@,
            decreases self.fetches@.len() - i,
        {
            assert(ids[i as int] == self.fetches@[i as int].id@);
            if text::same(self.fetches[i].id.as_str(), id) {
                proof {
                    lemma_place_found(ids, id@, i as int);
                }
                return Some(i);
            }
            i = i + 1;
        }
        proof {
            lemma_place_absent(ids, id@);
        }
        None
    }

    fn next_sequence(&mut self) -> (used: u64)
        ensures
            used == following(old(self)@.sequence),
            final(self)@ == (ManagerView { sequence: used, ..old(self)@ }),
            final(self).cache_bytes == old(self).cache_bytes,
            final(self).same_limits(*old(self)),
            final(self).registrations == old(self).registrations,
            final(self).cache == old(self).cache,
            final(self).fetches == old(self).fetches,
    {
        self.sequence = if self.sequence == 0xFFFF_FFFF_FFFF_FFFF {
            0
        } else {
            self.sequence + 1
        };
        assert(self@.registrations =~= old(self)@.registrations);
        assert(self@.cache =~= old(self)@.cache);
        assert(self@.fetches =~= old(self)@.fetches);
        self.sequence
    }

    fn touch_registration(&mut self, i: usize, used: u64)
        requires
            i < old(self).registrations@.len(),
        ensures
            final(self)@ == (ManagerView {
                registrations: old(self)@.registrations.update(
                    i as int,
                    RegistrationView {
                        last_used: used,
                        ..old(self)@.registrations[i as int]
                    },
                ),
                ..old(self)@
            }),
            final(self).cache_bytes == old(self).cache_bytes,
            final(self).same_limits(*old(self)),
            final(self).cache == old(self).cache,
            final(self).fetches == old(self).fetches,
            final(self).registrations@.len() == old(self).registrations@.len(),
    {
        self.registrations[i].last_used = used;
        assert(self@.registrations =~= old(self)@.registrations.update(
            i as int,
            RegistrationView { last_used: used, ..old(self)@.registrations[i as int] },
        ));
        assert(self@.cache =~= old(self)@.cache);
        assert(self@.fetches =~= old(self)@.fetches);
    }

    fn touch_cached(&mut self, i: usize, used: u64)
        requires
            i < old(self).cache@.len(),
        ensures
            final(self)@ == (ManagerView {
                cache: old(self)@.cache.update(
                    i as int,
                    CacheView { last_used: used, ..old(self)@.cache[i as int] },
                ),
                ..old(self)@
            }),
            final(self).cache_bytes == old(self).cache_bytes,
            final(self).same_limits(*old(self)),
            final(self).cache@.len() == old(self).cache@.len(),
    {
        self.cache[i].last_used = used;
        assert(self@.registrations =~= old(self)@.registrations);
        assert(self@.cache =~= old(self)@.cache.update(
            i as int,
            CacheView { last_used: used, ..old(self)@.cache[i as int] },
        ));
        assert(self@.fetches =~= old(self)@.fetches);
    }

    fn drop_cached(&mut self, i: usize)
        requires
            i < old(self).cache@.len(),
            old(self).cache_bytes == total(old(self)@.cache),
        ensures
            final(self)@ == (ManagerView {
                cache: old(self)@.cache.remove(i as int),
                ..old(self)@
            }),
            final(self).cache_bytes == total(final(self)@.cache),
            final(self).same_limits(*old(self)),
            final(self).cache@.len() == old(self).cache@.len() - 1,
    {
        proof {
            lemma_total_remove(self@.cache, i as int);
        }
        let entry = self.cache.remove(i);
        assert(entry@ == old(self)@.cache[i as int]);
        self.cache_bytes = self.cache_bytes - entry.resource.bytes.len();
        assert(self@.registrations =~= old(self)@.registrations);
        assert(self@.cache =~= old(self)@.cache.remove(i as int));
        assert(self@.fetches =~= old(self)@.fetches);
    }

    fn drop_fetch(&mut self, id: &str)
        ensures
            final(self)@ == (ManagerView {
                fetches: fetches_without(old(self)@.fetches, id@),
                ..old(self)@
            }),
            final(self).cache_bytes == old(self).cache_bytes,
            final(self).same_limits(*old(self)),
    {
        match self.find_fetch(id) {
            Some(i) => {
                let _ = self.fetches.remove(i);
                assert(self@.fetches =~= old(self)@.fetches.remove(i as int));
            },
            None => {},
        }
        assert(self@.registrations =~= old(self)@.registrations);
        assert(self@.cache =~= old(self)@.cache);
    }

    fn push_pending(&mut self, id: &str)
        ensures
            final(self)@ == (ManagerView {
                fetches: old(self)@.fetches.push(FetchView { id: id@, failure: None }),
                ..old(self)@
            }),
            final(self).cache_bytes == old(self).cache_bytes,
            final(self).same_limits(*old(self)),
    {
        self.fetches.push(FetchEntry { id: id.to_owned(), failure: None });
        assert(self@.registrations =~= old(self)@.registrations);
        assert(self@.cache =~= old(self)@.cache);
        assert(self@.fetches =~= old(self)@.fetches.push(FetchView { id: id@, failure: None }));
    }

    fn find_oldest_idle(&self) -> (r: Option<usize>)
        ensures
            match r {
                Some(i) => i < self.registrations@.len() && oldest_idle(
                    self@.registrations,
                    self@.fetches,
                    self@.registrations.len(),
                ) == Some(i as int),
                None => oldest_idle(
                    self@.registrations,
                    self@.fetches,
                    self@.registrations.len(),
                ) is None,
            },
    {
        let mut best: Option<usize> = None;
        let mut n: usize = 0;
        while n < self.registrations.len()
            invariant
                n <= self.registrations@.len(),
                match best {
                    Some(i) => i < n && oldest_idle(
                        self@.registrations,
                        self@.fetches,
                        n as nat,
                    ) == Some(i as int),
                    None => oldest_idle(self@.registrations, self@.fetches, n as nat) is None,
                },
            decreases self.registrations@.len() - n,
        {
            let busy = match self.find_fetch(self.registrations[n].id.as_str()) {
                Some(f) => {
                    assert(self@.fetches[f as int] == self.fetches@[f as int]@);
                    self.fetches[f].failure.is_none()
                },
                None => false,
            };
            assert(busy == under_way(self@.fetches, self@.registrations[n as int].id));
            if !busy {
                match best {
                    Some(i) => {
                        if self.registrations[n].last_used < self.registrations[i].last_used {
                            best = Some(n);
                        }
                    },
                    None => {
                        best = Some(n);
                    },
                }
            }
            n = n + 1;
        }
        best
    }

    fn find_oldest_kept(&self) -> (r: Option<usize>)
        ensures
            match r {
                Some(i) => i < self.cache@.len() && oldest_kept(self@.cache, self@.cache.len())
                    == Some(i as int),
                None => oldest_kept(self@.cache, self@.cache.len()) is None,
            },
    {
        let mut best: Option<usize> = None;
        let mut n: usize = 0;
        while n < self.cache.len()
            invariant
                n <= self.cache@.len(),
                match best {
                    Some(i) => i < n && oldest_kept(self@.cache, n as nat) == Some(i as int),
                    None => oldest_kept(self@.cache, n as nat) is None,
                },
            decreases self.cache@.len() - n,
        {
            match best {
                Some(i) => {
                    if self.cache[n].last_used < self.cache[i].last_used {
                        best = Some(n);
                    }
                },
                None => {
                    best = Some(n);
                },
            }
            n = n + 1;
        }
        best
    }

    /// Registers an address, and gives the id under which its bytes can be read. A blank
    /// address has none. Where there is no room, the longest unused address without a
    /// fetch under way makes room.
    pub fn register<F: Fn(&str) -> String>(&mut self, source_url: &str, uuid_of: &F) -> (r: Option<
        String,
    >)
        requires
            old(self).wf(),
            station::total(*uuid_of),
        ensures
            final(self).wf(),
            final(self).same_limits(*old(self)),
            registers(
                old(self)@,
                old(self).registration_limit(),
                source_url@,
                *uuid_of,
                final(self)@,
                text::opt_text(r),
            ),
    {
        let url = text::trim(source_url);
        if url.is_empty() || self.max_registrations == 0 {
            return None;
        }
        let uuid = uuid_of(url);
        let id = text::cat("resource-", uuid.as_str());
        proof {
            assert(station::identified(*uuid_of, url@, uuid@));
            registering_keeps_soundness(
                self@,
                self.max_bytes,
                self.max_registrations,
                id@,
                url@,
            );
        }
        if self.register_id(id.as_str(), url) {
            Some(id)
        } else {
            None
        }
    }

    fn register_id(&mut self, id: &str, url: &str) -> (r: bool)
        requires
            old(self).cache_bytes == total(old(self)@.cache),
            old(self)@.registrations.len() <= old(self).registration_limit(),
        ensures
            final(self)@ == registered(old(self)@, old(self).registration_limit(), id@, url@).0,
            r == registered(old(self)@, old(self).registration_limit(), id@, url@).1,
            final(self).cache_bytes == total(final(self)@.cache),
            final(self).same_limits(*old(self)),
    {
        let used = self.next_sequence();
        match self.find_registration(id) {
            Some(i) => {
                assert(self@.registrations[i as int] == self.registrations@[i as int]@);
                if text::same(self.registrations[i].source_url.as_str(), url) {
                    self.touch_registration(i, used);
                    return true;
                }
                return false;
            },
            None => {},
        }
        if self.registrations.len() >= self.max_registrations {
            let k = match self.find_oldest_idle() {
                Some(k) => k,
                None => {
                    return false;
                },
            };
            let ghost gone = self@.registrations[k as int].id;
            let ghost before = self@;
            let entry = self.registrations.remove(k);
            assert(entry@ == before.registrations[k as int]);
            assert(self@.registrations =~= before.registrations.remove(k as int));
            assert(self@.cache =~= before.cache);
            assert(self@.fetches =~= before.fetches);
            self.drop_fetch(entry.id.as_str());
            match self.find_cached(entry.id.as_str()) {
                Some(c) => {
                    self.drop_cached(c);
                },
                None => {},
            }
        }
        let ghost before = self@;
        self.registrations.push(
            Registration { id: id.to_owned(), source_url: url.to_owned(), last_used: used },
        );
        assert(self@.registrations =~= before.registrations.push(
            RegistrationView { id: id@, url: url@, last_used: used },
        ));
        assert(self@.cache =~= before.cache);
        assert(self@.fetches =~= before.fetches);
        true
    }

    /// The address of a registered resource.
    pub fn source_url(&mut self, resource_id: &str) -> (r: Option<String>)
        requires
            old(self).wf(),
        ensures
            final(self).wf(),
            final(self).same_limits(*old(self)),
            final(self)@ == addressed(old(self)@, resource_id@).0,
            text::opt_text(r) == addressed(old(self)@, resource_id@).1,
    {
        let used = self.next_sequence();
        match self.find_registration(resource_id) {
            Some(i) => {
                let ghost s = self@;
                self.touch_registration(i, used);
                proof {
                    lemma_touched(s.registrations, i as int, used);
                    lemma_still_registered(
                        cache_ids(s.cache),
                        s.registrations,
                        self@.registrations,
                    );
                    lemma_still_registered(
                        fetch_ids(s.fetches),
                        s.registrations,
                        self@.registrations,
                    );
                    assert(self@.registrations[i as int] == self.registrations@[i as int]@);
                }
                Some(self.registrations[i].source_url.clone())
            },
            None => None,
        }
    }

    /// The kept bytes of a resource, unless their time is up.
    pub fn cached(&mut self, resource_id: &str, now: u128) -> (r: Option<ProviderResource>)
        requires
            old(self).wf(),
        ensures
            final(self).wf(),
            final(self).same_limits(*old(self)),
            final(self)@ == read(old(self)@, resource_id@, now).0,
            r == read(old(self)@, resource_id@, now).1,
    {
        proof {
            reading_keeps_soundness(
                self@,
                self.max_bytes,
                self.max_registrations,
                resource_id@,
                now,
            );
        }
        match self.find_cached(resource_id) {
            Some(c) => {
                assert(self@.cache[c as int] == self.cache@[c as int]@);
                if self.cache[c].expires_at <= now {
                    self.drop_cached(c);
                    return None;
                }
                let resource = self.cache[c].resource.clone();
                let used = self.next_sequence();
                proof {
                    lemma_cache_touched(self@.cache, c as int, used);
                }
                self.touch_cached(c, used);
                Some(resource)
            },
            None => {
                let _ = self.next_sequence();
                None
            },
        }
    }

    /// What follows from the wish to read a resource.
    pub fn begin_fetch(&mut self, resource_id: &str, now: u128) -> (r: ResourceFetchPlan)
        requires
            old(self).wf(),
        ensures
            final(self).wf(),
            final(self).same_limits(*old(self)),
            final(self)@ == begun(old(self)@, resource_id@, now).0,
            r@ == begun(old(self)@, resource_id@, now).1,
    {
        let ghost s = self@;
        proof {
            beginning_keeps_soundness(
                self@,
                self.max_bytes,
                self.max_registrations,
                resource_id@,
                now,
            );
        }
        let used = self.next_sequence();
        let i = match self.find_registration(resource_id) {
            Some(i) => i,
            None => {
                return ResourceFetchPlan::Missing;
            },
        };
        assert(self@.registrations[i as int] == self.registrations@[i as int]@);
        let source_url = self.registrations[i].source_url.clone();
        self.touch_registration(i, used);
        match self.find_cached(resource_id) {
            Some(c) => {
                assert(self@.cache[c as int] == self.cache@[c as int]@);
                if self.cache[c].expires_at <= now {
                    self.drop_cached(c);
                } else {
                    let resource = self.cache[c].resource.clone();
                    proof {
                        lemma_cache_touched(self@.cache, c as int, used);
                    }
                    self.touch_cached(c, used);
                    return ResourceFetchPlan::Ready(resource);
                }
            },
            None => {},
        }
        match self.find_fetch(resource_id) {
            None => {},
            Some(f) => {
                assert(self@.fetches[f as int] == self.fetches@[f as int]@);
                match &self.fetches[f].failure {
                    None => {
                        return ResourceFetchPlan::Pending;
                    },
                    Some((message, until)) => {
                        if *until > now {
                            return ResourceFetchPlan::Failed(message.clone());
                        }
                    },
                }
                self.drop_fetch(resource_id);
            },
        }
        self.push_pending(resource_id);
        ResourceFetchPlan::Start { source_url }
    }

    /// Notes the end of a fetch: a failure is remembered for a while.
    pub fn finish_fetch(&mut self, resource_id: &str, error: Option<String>, now: u128)
        requires
            old(self).wf(),
            now + FAILED_FETCH_TTL <= u128::MAX,
        ensures
            final(self).wf(),
            final(self).same_limits(*old(self)),
            final(self)@ == finished(old(self)@, resource_id@, text::opt_text(error), now),
    {
        proof {
            finishing_keeps_soundness(
                self@,
                self.max_bytes,
                self.max_registrations,
                resource_id@,
                text::opt_text(error),
                now,
            );
        }
        match (self.find_registration(resource_id), error) {
            (Some(_), Some(message)) => {
                let entry = FetchEntry {
                    id: resource_id.to_owned(),
                    failure: Some((message, now + FAILED_FETCH_TTL)),
                };
                let ghost before = self@;
                match self.find_fetch(resource_id) {
                    Some(f) => {
                        self.fetches.set(f, entry);
                        assert(self@.fetches =~= before.fetches.update(f as int, entry@));
                    },
                    None => {
                        self.fetches.push(entry);
                        assert(self@.fetches =~= before.fetches.push(entry@));
                    },
                }
                assert(self@.registrations =~= before.registrations);
                assert(self@.cache =~= before.cache);
            },
            _ => {
                self.drop_fetch(resource_id);
            },
        }
    }

    fn purge_expired(&mut self, now: u128)
        requires
            old(self).cache_bytes == total(old(self)@.cache),
        ensures
            final(self)@ == (ManagerView {
                cache: unexpired(old(self)@.cache, now),
                ..old(self)@
            }),
            final(self).cache_bytes == total(final(self)@.cache),
            final(self).same_limits(*old(self)),
    {
        let ghost cs = self@.cache;
        let ghost mut done: int = 0;
        let mut i: usize = 0;
        assert(unexpired(cs.take(0), now) + cs.skip(0) =~= cs);
        while i < self.cache.len()
            invariant
                0 <= done <= cs.len(),
                i == unexpired(cs.take(done), now).len(),
                self@.cache == unexpired(cs.take(done), now) + cs.skip(done),
                self@ == (ManagerView { cache: self@.cache, ..old(self)@ }),
                self.cache_bytes == total(self@.cache),
                self.same_limits(*old(self)),
                cs == old(self)@.cache,
            decreases self.cache@.len() - i,
        {
            let ghost u = unexpired(cs.take(done), now);
            assert(self@.cache.len() == self.cache@.len());
            assert(cs.skip(done).len() > 0);
            assert(self@.cache[i as int] == cs[done]);
            assert(self@.cache[i as int] == self.cache@[i as int]@);
            assert(cs.take(done + 1).drop_last() =~= cs.take(done));
            assert(cs.take(done + 1).last() == cs[done]);
            if self.cache[i].expires_at <= now {
                self.drop_cached(i);
                assert(self@.cache =~= u + cs.skip(done + 1));
            } else {
                i = i + 1;
                assert(self@.cache =~= u.push(cs[done]) + cs.skip(done + 1));
            }
            proof {
                done = done + 1;
            }
        }
        assert(self@.cache.len() == self.cache@.len());
        assert(cs.skip(done).len() == cs.len() - done);
        assert(cs.take(done) =~= cs);
        assert(self@.cache =~= unexpired(cs, now));
    }

    fn make_room(&mut self, room: usize)
        requires
            old(self).cache_bytes == total(old(self)@.cache),
        ensures
            final(self)@ == (ManagerView {
                cache: shrunk(old(self)@.cache, room as int),
                ..old(self)@
            }),
            final(self).cache_bytes == total(final(self)@.cache),
            final(self).same_limits(*old(self)),
    {
        while self.cache_bytes > room
            invariant
                shrunk(self@.cache, room as int) == shrunk(old(self)@.cache, room as int),
                self@ == (ManagerView { cache: self@.cache, ..old(self)@ }),
                self.cache_bytes == total(self@.cache),
                self.same_limits(*old(self)),
            decreases self.cache@.len(),
        {
            let ghost cs = self@.cache;
            proof {
                lemma_oldest_kept(cs, cs.len());
            }
            match self.find_oldest_kept() {
                Some(i) => {
                    self.drop_cached(i);
                },
                None => {
                    assert(cs.len() == 0);
                    assert(false);
                },
            }
        }
    }

    /// Keeps the bytes of a registered resource, where they are within the limit.
    pub fn cache(&mut self, resource_id: &str, resource: ProviderResource, now: u128) -> (r: Result<
        (),
        String,
    >)
        requires
            old(self).wf(),
            now + old(self).time_to_live() <= u128::MAX,
        ensures
            final(self).wf(),
            final(self).same_limits(*old(self)),
            match cache_fault(
                old(self)@,
                resource_id@,
                resource.bytes@.len(),
                old(self).byte_limit(),
            ) {
                Some(m) => r matches Err(e) && e@ == m && final(self)@ == old(self)@,
                None => r is Ok && final(self)@ == kept(
                    old(self)@,
                    resource_id@,
                    resource,
                    now,
                    old(self).time_to_live(),
                    old(self).byte_limit(),
                ),
            },
    {
        let resource_bytes = resource.bytes.len();
        if resource_bytes > self.max_bytes {
            let mut m = text::cat("resource `", resource_id);
            m.append("` is ");
            m.append(text::decimal(resource_bytes as u64).as_str());
            m.append(" bytes, exceeding the ");
            m.append(text::decimal(self.max_bytes as u64).as_str());
            m.append(" byte cache limit");
            return Err(m);
        }
        if self.find_registration(resource_id).is_none() {
            return Err(text::cat("resource `", resource_id).concat("` is not registered"));
        }
        proof {
            keeping_keeps_soundness(
                self@,
                self.max_bytes,
                self.max_registrations,
                resource_id@,
                resource,
                now,
                self.ttl,
            );
        }
        self.purge_expired(now);
        match self.find_cached(resource_id) {
            Some(c) => {
                self.drop_cached(c);
            },
            None => {},
        }
        let room: usize = self.max_bytes - resource_bytes;
        self.make_room(room);
        proof {
            lemma_shrunk(
                cache_without(unexpired(old(self)@.cache, now), resource_id@),
                room as int,
            );
        }
        let used = self.next_sequence();
        self.cache_bytes = self.cache_bytes + resource_bytes;
        let ghost before = self@;
        let entry = CacheEntry {
            id: resource_id.to_owned(),
            resource,
            expires_at: now + self.ttl,
            last_used: used,
        };
        proof {
            lemma_total_push(before.cache, entry@);
        }
        self.cache.push(entry);
        assert(self@.registrations =~= before.registrations);
        assert(self@.cache =~= before.cache.push(entry@));
        assert(self@.fetches =~= before.fetches);
        Ok(())
    }
}

impl Default for ResourceManager {
    fn default() -> (r: Self)
        ensures
            r.wf(),
            r.time_to_live() == DEFAULT_TTL,
            r.byte_limit() == DEFAULT_MAX_BYTES,
            r.registration_limit() == DEFAULT_MAX_REGISTRATIONS,
            r@.registrations.len() == 0,
            r@.cache.len() == 0,
            r@.fetches.len() == 0,
    {
        ResourceManager::with_limits(DEFAULT_TTL, DEFAULT_MAX_BYTES, DEFAULT_MAX_REGISTRATIONS)
    }
}

/// The limits of resources in numbers: a quarter of an hour, 32 mebibytes, 4096 addresses,
/// and five seconds for a failed fetch.
pub proof fn limits_in_numbers()
    ensures
        DEFAULT_TTL == 900_000_000_000,
        DEFAULT_MAX_BYTES == 33_554_432,
        DEFAULT_MAX_REGISTRATIONS == 4_096,
        FAILED_FETCH_TTL == 5_000_000_000,
{
}

/// An id is found at its first place, and only where it is.
pub proof fn ids_are_found_at_their_place(ids: Seq<Seq<char>>, id: Seq<char>, i: int)
    ensures
        0 <= i < ids.len() && ids[i] == id && (forall|j: int|
            0 <= j < i ==> #[trigger] ids[j] != id) ==> place(ids, id) == Some(i),
        !ids.contains(id) ==> place(ids, id) is None,
{
    if 0 <= i < ids.len() && ids[i] == id && (forall|j: int|
        0 <= j < i ==> #[trigger] ids[j] != id) {
        lemma_place_found(ids, id, i);
    }
    if !ids.contains(id) {
        assert forall|j: int| 0 <= j < ids.len() implies #[trigger] ids[j] != id by {
            assert(ids.contains(ids[j]));
        }
        lemma_place_absent(ids, id);
    }
}

/// What holds at every moment: no two registrations, kept resources or fetches have one id,
/// what is kept or fetched is registered, and neither limit is exceeded.
pub proof fn each_id_stands_once(
    s: ManagerView,
    max_bytes: usize,
    max_registrations: usize,
    i: int,
    j: int,
)
    requires
        sound(s, max_bytes, max_registrations),
    ensures
        s.registrations.len() <= max_registrations,
        total(s.cache) <= max_bytes,
        0 <= i < j < s.registrations.len() ==> s.registrations[i].id != s.registrations[j].id,
        0 <= i < j < s.cache.len() ==> s.cache[i].id != s.cache[j].id,
        0 <= i < j < s.fetches.len() ==> s.fetches[i].id != s.fetches[j].id,
        0 <= i < s.cache.len() ==> exists|k: int|
            0 <= k < s.registrations.len() && (#[trigger] s.registrations[k]).id == s.cache[i].id,
        0 <= i < s.fetches.len() ==> exists|k: int|
            0 <= k < s.registrations.len() && (#[trigger] s.registrations[k]).id
                == s.fetches[i].id,
{
    if 0 <= i < j < s.registrations.len() {
        assert(registration_ids(s.registrations)[i] != registration_ids(s.registrations)[j]);
    }
    if 0 <= i < j < s.cache.len() {
        assert(cache_ids(s.cache)[i] != cache_ids(s.cache)[j]);
    }
    if 0 <= i < j < s.fetches.len() {
        assert(fetch_ids(s.fetches)[i] != fetch_ids(s.fetches)[j]);
    }
    let ids = registration_ids(s.registrations);
    if 0 <= i < s.cache.len() {
        assert(ids.contains(cache_ids(s.cache)[i]));
        let k = choose|k: int| 0 <= k < ids.len() && ids[k] == s.cache[i].id;
        assert(s.registrations[k].id == s.cache[i].id);
    }
    if 0 <= i < s.fetches.len() {
        assert(ids.contains(fetch_ids(s.fetches)[i]));
        let k = choose|k: int| 0 <= k < ids.len() && ids[k] == s.fetches[i].id;
        assert(s.registrations[k].id == s.fetches[i].id);
    }
}

proof fn lemma_registered_place(rs: Seq<RegistrationView>, r: int)
    requires
        unique(registration_ids(rs)),
        0 <= r < rs.len(),
    ensures
        registered_at(rs, rs[r].id) == Some(r),
{
    let ids = registration_ids(rs);
    assert forall|j: int| 0 <= j < r implies #[trigger] ids[j] != rs[r].id by {
        assert(ids[j] != ids[r]);
    }
    lemma_place_found(ids, rs[r].id, r);
}

proof fn lemma_cached_place(cs: Seq<CacheView>, c: int)
    requires
        unique(cache_ids(cs)),
        0 <= c < cs.len(),
    ensures
        cached_at(cs, cs[c].id) == Some(c),
{
    let ids = cache_ids(cs);
    assert forall|j: int| 0 <= j < c implies #[trigger] ids[j] != cs[c].id by {
        assert(ids[j] != ids[c]);
    }
    lemma_place_found(ids, cs[c].id, c);
}

proof fn lemma_fetching_place(fs: Seq<FetchView>, f: int)
    requires
        unique(fetch_ids(fs)),
        0 <= f < fs.len(),
    ensures
        fetching_at(fs, fs[f].id) == Some(f),
{
    let ids = fetch_ids(fs);
    assert forall|j: int| 0 <= j < f implies #[trigger] ids[j] != fs[f].id by {
        assert(ids[j] != ids[f]);
    }
    lemma_place_found(ids, fs[f].id, f);
}

proof fn lemma_not_fetched(fs: Seq<FetchView>, id: Seq<char>)
    requires
        forall|f: int| 0 <= f < fs.len() ==> (#[trigger] fs[f]).id != id,
    ensures
        fetching_at(fs, id) is None,
{
    assert forall|j: int| 0 <= j < fetch_ids(fs).len() implies #[trigger] fetch_ids(fs)[j] != id by {
        assert(fs[j].id != id);
    }
    lemma_place_absent(fetch_ids(fs), id);
}

proof fn lemma_not_registered(rs: Seq<RegistrationView>, id: Seq<char>)
    requires
        forall|r: int| 0 <= r < rs.len() ==> (#[trigger] rs[r]).id != id,
    ensures
        registered_at(rs, id) is None,
{
    assert forall|j: int|
        0 <= j < registration_ids(rs).len() implies #[trigger] registration_ids(rs)[j] != id by {
        assert(rs[j].id != id);
    }
    lemma_place_absent(registration_ids(rs), id);
}

/// A wish to read a resource that nobody registered finds nothing.
pub proof fn unregistered_resources_are_missing(s: ManagerView, id: Seq<char>, now: u128)
    requires
        forall|r: int| 0 <= r < s.registrations.len() ==> (#[trigger] s.registrations[r]).id != id,
    ensures
        begun(s, id, now).1 is Missing,
        begun(s, id, now).0.registrations == s.registrations,
        begun(s, id, now).0.cache == s.cache,
        begun(s, id, now).0.fetches == s.fetches,
        addressed(s, id).1 is None,
{
    lemma_not_registered(s.registrations, id);
}

/// A wish to read a registered resource finds its bytes while their time is not up, and
/// never afterwards.
pub proof fn bytes_are_ready_until_their_time_is_up(
    s: ManagerView,
    max_bytes: usize,
    max_registrations: usize,
    r: int,
    c: int,
    now: u128,
)
    requires
        sound(s, max_bytes, max_registrations),
        0 <= r < s.registrations.len(),
        0 <= c < s.cache.len(),
        s.registrations[r].id == s.cache[c].id,
    ensures
        now < s.cache[c].expires_at ==> begun(s, s.cache[c].id, now).1 == PlanView::Ready(
            s.cache[c].resource,
        ),
        now < s.cache[c].expires_at ==> read(s, s.cache[c].id, now).1 == Some(s.cache[c].resource),
        now >= s.cache[c].expires_at ==> !(begun(s, s.cache[c].id, now).1 is Ready),
        now >= s.cache[c].expires_at ==> read(s, s.cache[c].id, now).1 is None,
{
    lemma_registered_place(s.registrations, r);
    lemma_cached_place(s.cache, c);
}

/// A wish to read a registered resource without bytes starts a fetch from its address, waits
/// for the one that is under way, or is told of one that failed a moment ago.
pub proof fn missing_bytes_are_fetched(
    s: ManagerView,
    max_bytes: usize,
    max_registrations: usize,
    r: int,
    f: int,
    now: u128,
)
    requires
        sound(s, max_bytes, max_registrations),
        0 <= r < s.registrations.len(),
        forall|c: int|
            0 <= c < s.cache.len() && (#[trigger] s.cache[c]).id == s.registrations[r].id
                ==> s.cache[c].expires_at <= now,
    ensures
        (forall|k: int|
            0 <= k < s.fetches.len() ==> (#[trigger] s.fetches[k]).id != s.registrations[r].id)
            ==> begun(s, s.registrations[r].id, now).1 == PlanView::Start(s.registrations[r].url),
        0 <= f < s.fetches.len() && s.fetches[f].id == s.registrations[r].id ==> begun(
            s,
            s.registrations[r].id,
            now,
        ).1 == match s.fetches[f].failure {
            None => PlanView::Pending,
            Some((m, until)) => if now < until {
                PlanView::Failed(m)
            } else {
                PlanView::Start(s.registrations[r].url)
            },
        },
        addressed(s, s.registrations[r].id).1 == Some(s.registrations[r].url),
{
    let id = s.registrations[r].id;
    lemma_registered_place(s.registrations, r);
    lemma_place(cache_ids(s.cache), id);
    if let Some(c) = cached_at(s.cache, id) {
        assert(s.cache[c].id == id);
    }
    if forall|k: int| 0 <= k < s.fetches.len() ==> (#[trigger] s.fetches[k]).id != id {
        lemma_not_fetched(s.fetches, id);
    }
    if 0 <= f < s.fetches.len() && s.fetches[f].id == id {
        lemma_fetching_place(s.fetches, f);
    }
}

/// A failed fetch of a registered resource is remembered for five seconds: until then every
/// wish to read it is told of the failure, and then it is fetched again.
pub proof fn failures_are_remembered_for_a_while(
    s: ManagerView,
    max_bytes: usize,
    max_registrations: usize,
    r: int,
    message: Seq<char>,
    now: u128,
    later: u128,
)
    requires
        sound(s, max_bytes, max_registrations),
        0 <= r < s.registrations.len(),
        now + 5_000_000_000 <= u128::MAX,
        forall|c: int|
            0 <= c < s.cache.len() && (#[trigger] s.cache[c]).id == s.registrations[r].id
                ==> s.cache[c].expires_at <= later,
    ensures
        ({
            let id = s.registrations[r].id;
            let t = finished(s, id, Some(message), now);
            &&& later < now + 5_000_000_000 ==> begun(t, id, later).1 == PlanView::Failed(message)
            &&& later >= now + 5_000_000_000 ==> begun(t, id, later).1 == PlanView::Start(
                s.registrations[r].url,
            )
        }),
        ({
            let id = s.registrations[r].id;
            begun(finished(s, id, None, now), id, later).1 == PlanView::Start(
                s.registrations[r].url,
            )
        }),
{
    let id = s.registrations[r].id;
    let t = finished(s, id, Some(message), now);
    let u = finished(s, id, None, now);
    finishing_keeps_soundness(s, max_bytes, max_registrations, id, Some(message), now);
    finishing_keeps_soundness(s, max_bytes, max_registrations, id, None, now);
    lemma_registered_place(s.registrations, r);
    lemma_place(fetch_ids(s.fetches), id);
    let f = match fetching_at(s.fetches, id) {
        Some(f) => f,
        None => s.fetches.len() as int,
    };
    assert(t.fetches[f].id == id);
    missing_bytes_are_fetched(t, max_bytes, max_registrations, r, f, later);
    lemma_fetches_without(s.fetches, id);
    assert forall|k: int| 0 <= k < u.fetches.len() implies (#[trigger] u.fetches[k]).id != id by {
        assert(fetch_ids(u.fetches)[k] == u.fetches[k].id);
        assert(fetch_ids(u.fetches).contains(fetch_ids(u.fetches)[k]));
    }
    missing_bytes_are_fetched(u, max_bytes, max_registrations, r, 0, later);
}

/// The end of a fetch leaves registrations and kept bytes alone, and the fetches of other
/// resources.
pub proof fn the_end_of_a_fetch_concerns_one_resource(
    s: ManagerView,
    id: Seq<char>,
    error: Option<Seq<char>>,
    now: u128,
    f: int,
)
    requires
        0 <= f < s.fetches.len(),
        s.fetches[f].id != id,
    ensures
        finished(s, id, error, now).registrations == s.registrations,
        finished(s, id, error, now).cache == s.cache,
        finished(s, id, error, now).sequence == s.sequence,
        finished(s, id, error, now).fetches.contains(s.fetches[f]),
{
    let t = finished(s, id, error, now);
    lemma_place(fetch_ids(s.fetches), id);
    match fetching_at(s.fetches, id) {
        Some(k) => {
            if t.fetches.len() < s.fetches.len() {
                if f < k {
                    assert(t.fetches[f] == s.fetches[f]);
                } else {
                    assert(t.fetches[f - 1] == s.fetches[f]);
                }
            } else {
                assert(t.fetches[f] == s.fetches[f]);
            }
        },
        None => {
            assert(t.fetches[f] == s.fetches[f]);
        },
    }
}

/// What has expired goes when bytes are kept, and nothing else: what has not stays, in its
/// order.
pub proof fn only_expired_bytes_go(cs: Seq<CacheView>, now: u128, c: CacheView)
    ensures
        unexpired(cs, now).contains(c) <==> cs.contains(c) && now < c.expires_at,
    decreases cs.len(),
{
    let ds = unexpired(cs, now);
    if cs.len() > 0 {
        let t = cs.drop_last();
        let u = unexpired(t, now);
        only_expired_bytes_go(t, now, c);
        if u.contains(c) {
            let k = choose|k: int| 0 <= k < u.len() && u[k] == c;
            assert(ds[k] == c);
        }
        if t.contains(c) {
            let k = choose|k: int| 0 <= k < t.len() && t[k] == c;
            assert(cs[k] == c);
        }
        if cs.contains(c) && !t.contains(c) {
            let k = choose|k: int| 0 <= k < cs.len() && cs[k] == c;
            if k < t.len() {
                assert(t[k] == c);
            }
            assert(cs.last() == c);
            if now < c.expires_at {
                assert(ds[u.len() as int] == c);
            }
        }
        if ds.contains(c) && !u.contains(c) {
            let k = choose|k: int| 0 <= k < ds.len() && ds[k] == c;
            if k < u.len() {
                assert(u[k] == c);
            }
            assert(cs[cs.len() - 1] == c);
        }
    }
}

/// Kept bytes are counted one by one.
pub proof fn kept_bytes_are_counted(cs: Seq<CacheView>, c: CacheView)
    ensures
        total(Seq::<CacheView>::empty()) == 0,
        total(cs.push(c)) == total(cs) + c.resource.bytes@.len(),
{
    lemma_total_push(cs, c);
}

/// Making room drops nothing where there is room, and no more than is needed: with one of
/// what went there would be no room.
pub proof fn no_more_is_dropped_than_needed(cs: Seq<CacheView>, room: int)
    requires
        room >= 0,
        unique(cache_ids(cs)),
    ensures
        total(shrunk(cs, room)) <= room,
        total(cs) <= room ==> shrunk(cs, room) == cs,
        total(cs) > room ==> exists|k: int|
            0 <= k < cs.len() && !shrunk(cs, room).contains(#[trigger] cs[k]) && total(
                shrunk(cs, room),
            ) + cs[k].resource.bytes@.len() > room,
        forall|k: int| 0 <= k < shrunk(cs, room).len() ==> cs.contains(#[trigger] shrunk(cs, room)[k]),
    decreases cs.len(),
{
    lemma_shrunk(cs, room);
    if total(cs) > room {
        lemma_oldest_kept(cs, cs.len());
        let i = oldest_kept(cs, cs.len())->0;
        let ds = cs.remove(i);
        lemma_removed_are_some(cs, i);
        lemma_total_remove(cs, i);
        no_more_is_dropped_than_needed(ds, room);
        lemma_shrunk(ds, room);
        if total(ds) <= room {
            if ds.contains(cs[i]) {
                let k = choose|k: int| 0 <= k < ds.len() && ds[k] == cs[i];
                let a = if k < i {
                    k
                } else {
                    k + 1
                };
                assert(cache_ids(cs)[a] == cache_ids(cs)[i]);
            }
            assert(!shrunk(cs, room).contains(cs[i]));
        } else {
            let k = choose|k: int|
                0 <= k < ds.len() && !shrunk(ds, room).contains(#[trigger] ds[k]) && total(
                    shrunk(ds, room),
                ) + ds[k].resource.bytes@.len() > room;
            let a = if k < i {
                k
            } else {
                k + 1
            };
            assert(cs[a] == ds[k]);
        }
    }
}

/// Bytes are kept for a registered resource and within the limit, and refused otherwise.
pub proof fn bytes_of_registered_resources_are_kept(
    s: ManagerView,
    id: Seq<char>,
    len: nat,
    max_bytes: usize,
    r: int,
)
    ensures
        len > max_bytes ==> cache_fault(s, id, len, max_bytes) is Some,
        (forall|k: int|
            0 <= k < s.registrations.len() ==> (#[trigger] s.registrations[k]).id != id)
            ==> cache_fault(s, id, len, max_bytes) is Some,
        len <= max_bytes && 0 <= r < s.registrations.len() && s.registrations[r].id == id
            ==> cache_fault(s, id, len, max_bytes) is None,
{
    if forall|k: int| 0 <= k < s.registrations.len() ==> (#[trigger] s.registrations[k]).id != id {
        lemma_not_registered(s.registrations, id);
    }
    if 0 <= r < s.registrations.len() && s.registrations[r].id == id {
        lemma_place(registration_ids(s.registrations), id);
        assert(registration_ids(s.registrations)[r] == id);
    }
}

/// Keeping bytes leaves registrations and fetches alone. The bytes are the last that are
/// kept, expire when their time is up, and count as just used; all that is kept is within
/// the limit.
pub proof fn kept_bytes_come_last(
    s: ManagerView,
    max_bytes: usize,
    max_registrations: usize,
    id: Seq<char>,
    resource: ProviderResource,
    now: u128,
    ttl: u128,
)
    requires
        sound(s, max_bytes, max_registrations),
        cache_fault(s, id, resource.bytes@.len(), max_bytes) is None,
        now + ttl <= u128::MAX,
    ensures
        ({
            let t = kept(s, id, resource, now, ttl, max_bytes);
            &&& t.registrations == s.registrations
            &&& t.fetches == s.fetches
            &&& total(t.cache) <= max_bytes
            &&& t.cache.len() > 0
            &&& t.cache.last().id == id
            &&& t.cache.last().resource == resource
            &&& t.cache.last().expires_at == now + ttl
            &&& s.sequence < u64::MAX ==> t.sequence == s.sequence + 1 && t.cache.last().last_used
                == s.sequence + 1
        }),
{
    keeping_keeps_soundness(s, max_bytes, max_registrations, id, resource, now, ttl);
}

/// Where there is room, keeping bytes drops nothing of other resources whose time is not up.
pub proof fn others_stay_where_there_is_room(
    s: ManagerView,
    max_bytes: usize,
    max_registrations: usize,
    id: Seq<char>,
    resource: ProviderResource,
    now: u128,
    ttl: u128,
    c: int,
)
    requires
        sound(s, max_bytes, max_registrations),
        0 <= c < s.cache.len(),
        s.cache[c].id != id,
        now < s.cache[c].expires_at,
        total(s.cache) + resource.bytes@.len() <= max_bytes,
    ensures
        kept(s, id, resource, now, ttl, max_bytes).cache.contains(s.cache[c]),
{
    let x = s.cache[c];
    let live = unexpired(s.cache, now);
    only_expired_bytes_go(s.cache, now, x);
    assert(s.cache.contains(x));
    lemma_unexpired(s.cache, now);
    let others = cache_without(live, id);
    lemma_cache_without(live, id);
    let k = choose|k: int| 0 <= k < live.len() && live[k] == x;
    lemma_place(cache_ids(live), id);
    let m = match cached_at(live, id) {
        Some(i) => if k < i {
            k
        } else {
            k - 1
        },
        None => k,
    };
    assert(others[m] == x);
    let t = kept(s, id, resource, now, ttl, max_bytes);
    assert(shrunk(others, max_bytes - resource.bytes@.len()) == others);
    assert(t.cache[m] == x);
}

/// The address that makes way for another is the one that was not used for the longest time
/// among those without a fetch under way; none does where a fetch of each is under way.
pub proof fn the_longest_unused_address_makes_way(
    rs: Seq<RegistrationView>,
    fs: Seq<FetchView>,
    n: nat,
)
    requires
        n <= rs.len(),
    ensures
        match oldest_idle(rs, fs, n) {
            Some(k) => {
                &&& 0 <= k < n
                &&& !under_way(fs, rs[k].id)
                &&& forall|j: int|
                    0 <= j < n && !under_way(fs, (#[trigger] rs[j]).id) ==> rs[k].last_used
                        <= rs[j].last_used
            },
            None => forall|j: int| 0 <= j < n ==> under_way(fs, (#[trigger] rs[j]).id),
        },
    decreases n,
{
    if n > 0 {
        the_longest_unused_address_makes_way(rs, fs, (n - 1) as nat);
    }
}

/// A fetch is under way where there is one for the id that has not failed.
pub proof fn fetches_are_under_way(fs: Seq<FetchView>, f: int, id: Seq<char>)
    ensures
        unique(fetch_ids(fs)) && 0 <= f < fs.len() ==> (under_way(fs, fs[f].id) <==> fs[f].failure
            is None),
        (forall|k: int| 0 <= k < fs.len() ==> (#[trigger] fs[k]).id != id) ==> !under_way(fs, id),
{
    if unique(fetch_ids(fs)) && 0 <= f < fs.len() {
        lemma_fetching_place(fs, f);
    }
    if forall|k: int| 0 <= k < fs.len() ==> (#[trigger] fs[k]).id != id {
        lemma_not_fetched(fs, id);
    }
}

/// Where there is room, an address that is new is registered behind the others. A known id
/// is registered again for its own address only, and counts as just used.
pub proof fn addresses_are_registered(
    s: ManagerView,
    max_registrations: usize,
    id: Seq<char>,
    url: Seq<char>,
    r: int,
)
    requires
        unique(registration_ids(s.registrations)),
        s.sequence < u64::MAX,
    ensures
        (forall|k: int|
            0 <= k < s.registrations.len() ==> (#[trigger] s.registrations[k]).id != id)
            && s.registrations.len() < max_registrations ==> {
            let (t, done) = registered(s, max_registrations, id, url);
            &&& done
            &&& t.cache == s.cache
            &&& t.fetches == s.fetches
            &&& t.registrations.drop_last() == s.registrations
            &&& t.registrations.last().id == id
            &&& t.registrations.last().url == url
            &&& t.registrations.last().last_used == s.sequence + 1
            &&& t.sequence == s.sequence + 1
        },
        0 <= r < s.registrations.len() && s.registrations[r].id == id ==> {
            let (t, done) = registered(s, max_registrations, id, url);
            &&& done <==> s.registrations[r].url == url
            &&& t.cache == s.cache
            &&& t.fetches == s.fetches
            &&& t.registrations.len() == s.registrations.len()
            &&& t.registrations[r].url == s.registrations[r].url
            &&& done ==> t.registrations[r].last_used == s.sequence + 1
            &&& !done ==> t.registrations == s.registrations
        },
{
    if forall|k: int| 0 <= k < s.registrations.len() ==> (#[trigger] s.registrations[k]).id != id {
        lemma_not_registered(s.registrations, id);
        let t = registered(s, max_registrations, id, url).0;
        if s.registrations.len() < max_registrations {
            assert(t.registrations.drop_last() =~= s.registrations);
        }
    }
    if 0 <= r < s.registrations.len() && s.registrations[r].id == id {
        lemma_registered_place(s.registrations, r);
    }
}

/// Where there is no room, a new address takes the place of the one that makes way. Of that
/// one nothing is left, neither bytes nor a fetch; all other addresses stay.
pub proof fn a_new_address_takes_a_place(
    s: ManagerView,
    max_bytes: usize,
    max_registrations: usize,
    id: Seq<char>,
    url: Seq<char>,
    k: int,
    j: int,
)
    requires
        sound(s, max_bytes, max_registrations),
        s.registrations.len() == max_registrations,
        forall|r: int| 0 <= r < s.registrations.len() ==> (#[trigger] s.registrations[r]).id != id,
        oldest_idle(s.registrations, s.fetches, s.registrations.len()) == Some(k),
        0 <= j < s.registrations.len(),
        j != k,
    ensures
        ({
            let (t, done) = registered(s, max_registrations, id, url);
            let gone = s.registrations[k].id;
            &&& done
            &&& t.registrations.len() == s.registrations.len()
            &&& t.registrations.last().id == id
            &&& t.registrations.last().url == url
            &&& t.registrations.contains(s.registrations[j])
            &&& forall|i: int|
                0 <= i < t.registrations.len() ==> (#[trigger] t.registrations[i]).id != gone
            &&& forall|c: int| 0 <= c < t.cache.len() ==> (#[trigger] t.cache[c]).id != gone
            &&& forall|f: int| 0 <= f < t.fetches.len() ==> (#[trigger] t.fetches[f]).id != gone
        }),
{
    the_longest_unused_address_makes_way(s.registrations, s.fetches, s.registrations.len());
    lemma_not_registered(s.registrations, id);
    let (t, done) = registered(s, max_registrations, id, url);
    let gone = s.registrations[k].id;
    let left = s.registrations.remove(k);
    let m = if j < k {
        j
    } else {
        j - 1
    };
    assert(t.registrations[m] == s.registrations[j]);
    assert forall|i: int| 0 <= i < t.registrations.len() implies (#[trigger] t.registrations[i]).id
        != gone by {
        if i < left.len() {
            let a = if i < k {
                i
            } else {
                i + 1
            };
            assert(t.registrations[i] == s.registrations[a]);
            assert(registration_ids(s.registrations)[a] != registration_ids(s.registrations)[k]);
        }
    }
    lemma_cache_without(s.cache, gone);
    assert forall|c: int| 0 <= c < t.cache.len() implies (#[trigger] t.cache[c]).id != gone by {
        assert(cache_ids(t.cache)[c] == t.cache[c].id);
        assert(cache_ids(t.cache).contains(cache_ids(t.cache)[c]));
    }
    lemma_fetches_without(s.fetches, gone);
    assert forall|f: int| 0 <= f < t.fetches.len() implies (#[trigger] t.fetches[f]).id != gone by {
        assert(fetch_ids(t.fetches)[f] == t.fetches[f].id);
        assert(fetch_ids(t.fetches).contains(fetch_ids(t.fetches)[f]));
    }
}

/// Where there is no room and a fetch of every address is under way, a new address is not
/// registered, and all stays as it was.
pub proof fn busy_addresses_stay(
    s: ManagerView,
    max_registrations: usize,
    id: Seq<char>,
    url: Seq<char>,
)
    requires
        s.registrations.len() >= max_registrations,
        forall|r: int| 0 <= r < s.registrations.len() ==> (#[trigger] s.registrations[r]).id != id,
        forall|r: int|
            0 <= r < s.registrations.len() ==> under_way(
                s.fetches,
                (#[trigger] s.registrations[r]).id,
            ),
    ensures
        !registered(s, max_registrations, id, url).1,
        registered(s, max_registrations, id, url).0.registrations == s.registrations,
        registered(s, max_registrations, id, url).0.cache == s.cache,
        registered(s, max_registrations, id, url).0.fetches == s.fetches,
{
    lemma_not_registered(s.registrations, id);
    the_longest_unused_address_makes_way(s.registrations, s.fetches, s.registrations.len());
}

/// An address is registered without the white space around it, under an id made of the
/// identifier of the address; a blank one is not registered, nor any where none may be.
pub proof fn addresses_are_registered_trimmed<F: Fn(&str) -> String>(
    s: ManagerView,
    max_registrations: usize,
    source_url: Seq<char>,
    uuid_of: F,
    t: ManagerView,
    id: Option<Seq<char>>,
)
    requires
        registers(s, max_registrations, source_url, uuid_of, t, id),
    ensures
        text::blank(source_url) || max_registrations == 0 ==> id is None && t == s,
        id matches Some(given) ==> exists|uuid: Seq<char>|
            station::identified(uuid_of, text::trimmed(source_url), uuid) && given
                == #[trigger] ("resource-"@ + uuid) && registered(
                s,
                max_registrations,
                given,
                text::trimmed(source_url),
            ).1,
{
    if id is Some {
        let uuid = choose|uuid: Seq<char>|
            #![trigger station::identified(uuid_of, text::trimmed(source_url), uuid)]
            station::identified(uuid_of, text::trimmed(source_url), uuid) && t == registered(
                s,
                max_registrations,
                resource_id(uuid),
                text::trimmed(source_url),
            ).0 && id == if registered(
                s,
                max_registrations,
                resource_id(uuid),
                text::trimmed(source_url),
            ).1 {
                Some(resource_id(uuid))
            } else {
                None
            };
        assert(id.unwrap() == "resource-"@ + uuid);
    }
}

/// Uses are numbered in turn, and begin anew after the last number.
pub proof fn uses_are_numbered(sequence: u64)
    ensures
        sequence < u64::MAX ==> following(sequence) == sequence + 1,
        sequence == u64::MAX ==> following(sequence) == 0,
{
}

/// Looking an address up, reading bytes and wishing to read them count as uses: of the
/// registration, and of the bytes where they are there.
pub proof fn uses_are_counted(
    s: ManagerView,
    max_bytes: usize,
    max_registrations: usize,
    r: int,
    c: int,
    now: u128,
)
    requires
        sound(s, max_bytes, max_registrations),
        s.sequence < u64::MAX,
        0 <= r < s.registrations.len(),
        0 <= c < s.cache.len(),
        s.registrations[r].id == s.cache[c].id,
        now < s.cache[c].expires_at,
    ensures
        addressed(s, s.cache[c].id).0.registrations[r].last_used == s.sequence + 1,
        read(s, s.cache[c].id, now).0.cache[c].last_used == s.sequence + 1,
        read(s, s.cache[c].id, now).0.cache[c].expires_at == s.cache[c].expires_at,
        begun(s, s.cache[c].id, now).0.registrations[r].last_used == s.sequence + 1,
        begun(s, s.cache[c].id, now).0.cache[c].last_used == s.sequence + 1,
        begun(s, s.cache[c].id, now).0.cache[c].expires_at == s.cache[c].expires_at,
        begun(s, s.cache[c].id, now).0.sequence == s.sequence + 1,
{
    lemma_registered_place(s.registrations, r);
    lemma_cached_place(s.cache, c);
}

/// Bytes that are not kept are told with their size and the limit, or with the id that is
/// not registered; the id of a resource is made of an identifier.
pub proof fn bytes_that_are_not_kept_are_told(
    s: ManagerView,
    id: Seq<char>,
    len: nat,
    max_bytes: usize,
    uuid: Seq<char>,
)
    ensures
        len > max_bytes ==> cache_fault(s, id, len, max_bytes) == Some(
            "resource `"@ + id + "` is "@ + text::numeral(len) + " bytes, exceeding the "@
                + text::numeral(max_bytes as nat) + " byte cache limit"@,
        ),
        len <= max_bytes && cache_fault(s, id, len, max_bytes) is Some ==> cache_fault(
            s,
            id,
            len,
            max_bytes,
        ) == Some("resource `"@ + id + "` is not registered"@),
        resource_id(uuid) == "resource-"@ + uuid,
{
}

/// Managers with the same limits keep bytes for the same time, as many bytes, and as many
/// addresses.
pub proof fn the_same_limits_are_three(a: ResourceManager, b: ResourceManager)
    ensures
        a.same_limits(b) <==> a.time_to_live() == b.time_to_live() && a.byte_limit()
            == b.byte_limit() && a.registration_limit() == b.registration_limit(),
{
}

} // verus!
