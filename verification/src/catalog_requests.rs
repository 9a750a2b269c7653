//! Answering requests for provinces and cities.

use vstd::prelude::*;
use crate::catalog::{City, Province};
use crate::limits::{
    self, normalize_pagination, validate_batch_size, PageLimits, DEFAULT_PAGE_SIZE,
    MAX_BATCH_QUERIES,
};
use crate::page::{self, paginate, Page};
use crate::provider::{ProviderCity, ProviderProvince};
use crate::rpc::{self, Reply, RpcErrorCode, RpcFailure};
use crate::text;

verus! {

/// The provinces as they are listed.
pub open spec fn listed_provinces(provinces: Seq<ProviderProvince>) -> Seq<Province> {
    Seq::new(provinces.len(), |i: int| Province { name: provinces[i].name })
}

/// The cities as they are listed.
pub open spec fn listed_cities(cities: Seq<ProviderCity>) -> Seq<City> {
    Seq::new(
        cities.len(),
        |i: int| City { province: cities[i].province, city: cities[i].city },
    )
}

/// The provinces as they are listed.
pub fn list_provinces(provinces: &Vec<ProviderProvince>) -> (r: Vec<Province>)
    ensures
        r@ == listed_provinces(provinces@),
{
    let mut listed: Vec<Province> = Vec::new();
    let mut i: usize = 0;
    while i < provinces.len()
        invariant
            i <= provinces@.len(),
            listed@ == listed_provinces(provinces@).take(i as int),
        decreases provinces@.len() - i,
    {
        listed.push(provinces[i].public_ref());
        assert(listed@ =~= listed_provinces(provinces@).take(i + 1));
        i = i + 1;
    }
    assert(listed@ =~= listed_provinces(provinces@));
    listed
}

/// The cities as they are listed.
pub fn list_cities(cities: &Vec<ProviderCity>) -> (r: Vec<City>)
    ensures
        r@ == listed_cities(cities@),
{
    let mut listed: Vec<City> = Vec::new();
    let mut i: usize = 0;
    while i < cities.len()
        invariant
            i <= cities@.len(),
            listed@ == listed_cities(cities@).take(i as int),
        decreases cities@.len() - i,
    {
        listed.push(cities[i].public_ref());
        assert(listed@ =~= listed_cities(cities@).take(i + 1));
        i = i + 1;
    }
    assert(listed@ =~= listed_cities(cities@));
    listed
}

/// The page of `all` at an offset.
pub open spec fn exact_page<T>(p: Page<T>, all: Seq<T>, offset: int, page_size: int) -> bool {
    &&& p.items@ == page::page_items(all, offset, page_size)
    &&& p.has_more == (page::page_end(all.len(), offset, page_size) < all.len())
    &&& p.next_offset == page::page_end(all.len(), offset, page_size) as u32
}

/// The answer to a request for provinces whose page is known.
pub fn handle_list_provinces(
    offset: usize,
    page_size: usize,
    provinces: Result<Vec<ProviderProvince>, String>,
) -> (r: Reply<Page<Province>>)
    ensures
        match provinces {
            Ok(all) => r matches Reply::Done(p) && exact_page(
                p,
                listed_provinces(all@),
                offset as int,
                page_size as int,
            ),
            Err(m) => r matches Reply::Error(f) && rpc::fails(f, RpcErrorCode::Updater, m@),
        },
{
    match provinces {
        Ok(all) => {
            let listed = list_provinces(&all);
            let p = paginate(&listed, offset, page_size);
            assert(p.items@ =~= page::page_items(listed@, offset as int, page_size as int));
            Reply::Done(p)
        },
        Err(message) => Reply::Error(RpcFailure::new(RpcErrorCode::Updater, message)),
    }
}

/// The answer to a request for cities whose page is known.
pub fn handle_list_cities(
    offset: usize,
    page_size: usize,
    cities: Result<Vec<ProviderCity>, String>,
) -> (r: Reply<Page<City>>)
    ensures
        match cities {
            Ok(all) => r matches Reply::Done(p) && exact_page(
                p,
                listed_cities(all@),
                offset as int,
                page_size as int,
            ),
            Err(m) => r matches Reply::Error(f) && rpc::fails(f, RpcErrorCode::Updater, m@),
        },
{
    match cities {
        Ok(all) => {
            let listed = list_cities(&all);
            let p = paginate(&listed, offset, page_size);
            assert(p.items@ =~= page::page_items(listed@, offset as int, page_size as int));
            Reply::Done(p)
        },
        Err(message) => Reply::Error(RpcFailure::new(RpcErrorCode::Updater, message)),
    }
}

/// One of many queries in a request: a page of the cities of a province.
#[derive(Debug, PartialEq, Eq)]
pub struct RegionQuery {
    pub province: String,
    pub page_offset: u32,
    pub page_size: u32,
}

/// A query whose page is known.
#[derive(Debug, PartialEq, Eq)]
pub struct RegionPageQuery {
    pub province: String,
    pub offset: usize,
    pub page_size: usize,
}

/// The page of the cities of a province, or why there is none.
#[derive(Debug, PartialEq, Eq)]
pub struct BatchRegionPage {
    pub province: String,
    pub cities: Vec<City>,
    pub has_more: bool,
    pub next_offset: u32,
    pub error: Option<String>,
}

/// Why one of the first `n` queries is refused, if one is.
pub open spec fn query_fault(queries: Seq<RegionQuery>, n: nat, bounds: PageLimits) -> Option<
    Seq<char>,
>
    decreases n,
{
    if n == 0 {
        None
    } else {
        match query_fault(queries, (n - 1) as nat, bounds) {
            Some(m) => Some(m),
            None => limits::page_fault(
                queries[n - 1].page_offset,
                queries[n - 1].page_size,
                DEFAULT_PAGE_SIZE,
                bounds,
            ),
        }
    }
}

/// Why a request with many queries is refused, if it is.
pub open spec fn batch_fault(queries: Seq<RegionQuery>, bounds: PageLimits) -> Option<Seq<char>> {
    if queries.len() > MAX_BATCH_QUERIES {
        Some(
            "batch query count "@ + text::numeral(queries.len()) + " exceeds maximum "@
                + text::numeral(MAX_BATCH_QUERIES as nat),
        )
    } else {
        query_fault(queries, queries.len(), bounds)
    }
}

/// `p` asks for what `q` asks for.
pub open spec fn settles(p: RegionPageQuery, q: RegionQuery) -> bool {
    &&& p.province == q.province
    &&& p.offset == q.page_offset
    &&& p.page_size == limits::size_of_page(q.page_size, DEFAULT_PAGE_SIZE)
}

proof fn lemma_query_fault(queries: Seq<RegionQuery>, n: nat, m: nat, bounds: PageLimits)
    requires
        n <= m <= queries.len(),
        query_fault(queries, n, bounds) is Some,
    ensures
        query_fault(queries, m, bounds) == query_fault(queries, n, bounds),
    decreases m - n,
{
    if n < m {
        lemma_query_fault(queries, n, (m - 1) as nat, bounds);
    }
}

/// The queries of a request, with their pages. Where one query is refused, the whole
/// request is, before any of them is worked on.
pub fn batch_queries(decoded: Result<Vec<RegionQuery>, String>, bounds: PageLimits) -> (r: Result<
    Vec<RegionPageQuery>,
    RpcFailure,
>)
    ensures
        match decoded {
            Err(m) => r matches Err(f) && rpc::fails(f, RpcErrorCode::BadRequest, m@),
            Ok(qs) => match batch_fault(qs@, bounds) {
                Some(m) => r matches Err(f) && rpc::fails(f, RpcErrorCode::BadRequest, m),
                None => {
                    &&& r matches Ok(ps)
                    &&& ps@.len() == qs@.len()
                    &&& forall|i: int| 0 <= i < qs@.len() ==> settles(#[trigger] ps@[i], qs@[i])
                },
            },
        },
{
    let queries = match decoded {
        Ok(queries) => queries,
        Err(message) => {
            return Err(RpcFailure::new(RpcErrorCode::BadRequest, message));
        },
    };
    match validate_batch_size(queries.len()) {
        Ok(_) => {},
        Err(message) => {
            return Err(RpcFailure::new(RpcErrorCode::BadRequest, message));
        },
    }
    let ghost all = queries@;
    let mut pages: Vec<RegionPageQuery> = Vec::new();
    let mut i: usize = 0;
    while i < queries.len()
        invariant
            queries@ == all,
            decoded matches Ok(qs) && qs@ == all,
            i <= all.len(),
            all.len() <= MAX_BATCH_QUERIES,
            query_fault(all, i as nat, bounds) is None,
            pages@.len() == i,
            forall|j: int| 0 <= j < i ==> settles(#[trigger] pages@[j], all[j]),
        decreases all.len() - i,
    {
        let query = &queries[i];
        match normalize_pagination(
            query.page_offset,
            query.page_size,
            DEFAULT_PAGE_SIZE,
            bounds,
        ) {
            Ok((offset, page_size)) => {
                pages.push(
                    RegionPageQuery { province: query.province.clone(), offset, page_size },
                );
            },
            Err(message) => {
                proof {
                    lemma_query_fault(all, (i + 1) as nat, all.len(), bounds);
                }
                return Err(RpcFailure::new(RpcErrorCode::BadRequest, message));
            },
        }
        i = i + 1;
    }
    Ok(pages)
}

/// The page of the cities of a province. Where the cities cannot be had, the page says
/// why, and the other pages of the request are not touched.
pub fn fetch_region_page(query: &RegionPageQuery, cities: Result<Vec<ProviderCity>, String>) -> (r:
    BatchRegionPage)
    ensures
        r.province == query.province,
        match cities {
            Ok(all) => {
                let listed = listed_cities(all@);
                let end = page::page_end(
                    listed.len(),
                    query.offset as int,
                    query.page_size as int,
                );
                &&& r.cities@ == page::page_items(
                    listed,
                    query.offset as int,
                    query.page_size as int,
                )
                &&& r.has_more == (end < listed.len())
                &&& r.next_offset == end as u32
                &&& r.error is None
            },
            Err(m) => {
                &&& r.cities@.len() == 0
                &&& !r.has_more
                &&& r.next_offset == query.offset as u32
                &&& r.error == Some(m)
            },
        },
{
    match cities {
        Ok(all) => {
            let listed = list_cities(&all);
            let p = paginate(&listed, query.offset, query.page_size);
            assert(p.items@ =~= page::page_items(
                listed@,
                query.offset as int,
                query.page_size as int,
            ));
            BatchRegionPage {
                province: query.province.clone(),
                cities: p.items,
                has_more: p.has_more,
                next_offset: p.next_offset,
                error: None,
            }
        },
        Err(message) => {
            #[verifier::truncate]
            let next_offset = query.offset as u32;
            BatchRegionPage {
                province: query.province.clone(),
                cities: Vec::new(),
                has_more: false,
                next_offset,
                error: Some(message),
            }
        },
    }
}

/// Provinces and cities are listed in their order, by their names.
pub proof fn regions_are_listed_by_name(
    provinces: Seq<ProviderProvince>,
    cities: Seq<ProviderCity>,
    i: int,
)
    requires
        0 <= i,
    ensures
        listed_provinces(provinces).len() == provinces.len(),
        i < provinces.len() ==> listed_provinces(provinces)[i].name@ == provinces[i].name@,
        listed_cities(cities).len() == cities.len(),
        i < cities.len() ==> listed_cities(cities)[i].city@ == cities[i].city@,
        i < cities.len() ==> listed_cities(cities)[i].province@ == cities[i].province@,
{
}

/// A page of a list holds what follows its offset, and tells whether and where more
/// follows.
pub proof fn listed_pages_hold_what_follows<T>(
    p: Page<T>,
    all: Seq<T>,
    offset: int,
    page_size: int,
    i: int,
)
    requires
        exact_page(p, all, offset, page_size),
        0 <= offset <= all.len(),
        0 <= page_size,
        all.len() <= u32::MAX,
    ensures
        p.items@.len() <= page_size,
        0 <= i < p.items@.len() ==> p.items@[i] == all[offset + i],
        p.next_offset == offset + p.items@.len(),
        p.has_more <==> offset + p.items@.len() < all.len(),
        p.has_more ==> p.items@.len() == page_size,
{
    page::pages_hold_what_follows_the_offset(all, offset, page_size, i);
}

/// A request with many queries is taken where there are no more than 64 of them and each
/// asks for a page within what is allowed; it is refused where one does not.
pub proof fn every_query_is_held_to_the_limits(
    queries: Seq<RegionQuery>,
    n: nat,
    bounds: PageLimits,
)
    requires
        n <= queries.len(),
    ensures
        queries.len() > 64 ==> batch_fault(queries, bounds) is Some,
        queries.len() <= 64 ==> batch_fault(queries, bounds) == query_fault(
            queries,
            queries.len(),
            bounds,
        ),
        query_fault(queries, n, bounds) is None <==> forall|i: int|
            0 <= i < n ==> {
                let q = #[trigger] queries[i];
                &&& q.page_offset <= bounds.max_offset
                &&& q.page_size <= bounds.max_size
                &&& q.page_size == 0 ==> 32 <= bounds.max_size
            },
    decreases n,
{
    if n > 0 {
        every_query_is_held_to_the_limits(queries, (n - 1) as nat, bounds);
        let last = queries[n - 1];
        limits::pages_within_limits_are_given(last.page_offset, last.page_size, 32, bounds);
        if query_fault(queries, (n - 1) as nat, bounds) is Some {
            assert(!(forall|i: int|
                0 <= i < n - 1 ==> {
                    let q = #[trigger] queries[i];
                    &&& q.page_offset <= bounds.max_offset
                    &&& q.page_size <= bounds.max_size
                    &&& q.page_size == 0 ==> 32 <= bounds.max_size
                }));
        }
    }
}

/// A query asks for the province, the offset and the size that it names, and for 32 cities
/// where it names no size.
pub proof fn queries_ask_for_what_they_name(p: RegionPageQuery, q: RegionQuery)
    requires
        settles(p, q),
    ensures
        p.province@ == q.province@,
        p.offset == q.page_offset,
        q.page_size > 0 ==> p.page_size == q.page_size,
        q.page_size == 0 ==> p.page_size == 32,
{
}

/// A request with too many queries is told with their number; else the first query that is
/// refused is what is told.
pub proof fn refused_batches_are_told(
    queries: Seq<RegionQuery>,
    n: nat,
    bounds: PageLimits,
    k: int,
)
    requires
        n <= queries.len(),
    ensures
        queries.len() > 64 ==> batch_fault(queries, bounds) == Some(
            "batch query count "@ + text::numeral(queries.len()) + " exceeds maximum "@
                + text::numeral(64),
        ),
        0 <= k < n && limits::page_fault(
            queries[k].page_offset,
            queries[k].page_size,
            32,
            bounds,
        ) is Some && (forall|i: int|
            0 <= i < k ==> limits::page_fault(
                (#[trigger] queries[i]).page_offset,
                queries[i].page_size,
                32,
                bounds,
            ) is None) ==> query_fault(queries, n, bounds) == limits::page_fault(
            queries[k].page_offset,
            queries[k].page_size,
            32,
            bounds,
        ),
        (forall|i: int|
            0 <= i < n ==> limits::page_fault(
                (#[trigger] queries[i]).page_offset,
                queries[i].page_size,
                32,
                bounds,
            ) is None) ==> query_fault(queries, n, bounds) is None,
    decreases n,
{
    if n > 0 {
        refused_batches_are_told(queries, (n - 1) as nat, bounds, k);
        if k == n - 1 {
            if forall|i: int|
                0 <= i < k ==> limits::page_fault(
                    (#[trigger] queries[i]).page_offset,
                    queries[i].page_size,
                    32,
                    bounds,
                ) is None {
                assert(query_fault(queries, (n - 1) as nat, bounds) is None);
            }
        }
    }
}

} // verus!
