//! Long lists in pages.

use vstd::prelude::*;
use crate::config::AppConfig;
use crate::limits::{normalize_pagination, PageLimits, DEFAULT_PAGE_SIZE};
use crate::limits;
use crate::rpc::{self, Reply, RpcErrorCode, RpcFailure};

verus! {

/// Where the page that is asked for at an offset starts.
pub open spec fn page_start(len: nat, offset: int) -> int {
    if offset <= len {
        offset
    } else {
        len as int
    }
}

/// Where the page that is asked for at an offset ends.
pub open spec fn page_end(len: nat, offset: int, page_size: int) -> int {
    if page_start(len, offset) + page_size <= len {
        page_start(len, offset) + page_size
    } else {
        len as int
    }
}

/// The entries on the page that is asked for at an offset.
pub open spec fn page_items<T>(all: Seq<T>, offset: int, page_size: int) -> Seq<T> {
    all.subrange(page_start(all.len(), offset), page_end(all.len(), offset, page_size))
}

/// A page: its entries, whether more follow, and the offset of the next page.
#[derive(Debug, PartialEq, Eq)]
pub struct Page<T> {
    pub items: Vec<T>,
    pub has_more: bool,
    pub next_offset: u32,
}

/// The page of `all` at an offset, with copies of its entries.
pub open spec fn is_page<T: Clone>(
    p: Page<T>,
    all: Seq<T>,
    offset: int,
    page_size: int,
) -> bool {
    let items = page_items(all, offset, page_size);
    let end = page_end(all.len(), offset, page_size);
    &&& p.items@.len() == items.len()
    &&& forall|i: int| 0 <= i < items.len() ==> cloned(items[i], #[trigger] p.items@[i])
    &&& p.has_more == (end < all.len())
    &&& p.next_offset == end as u32
}

/// The page of `all` at an offset.
pub fn paginate<T: Clone>(all: &Vec<T>, offset: usize, page_size: usize) -> (r: Page<T>)
    ensures
        is_page(r, all@, offset as int, page_size as int),
{
    let total = all.len();
    let start: usize = if offset <= total {
        offset
    } else {
        total
    };
    let end: usize = if page_size <= total - start {
        start + page_size
    } else {
        total
    };
    let mut items: Vec<T> = Vec::new();
    let ghost want = page_items(all@, offset as int, page_size as int);
    let mut i: usize = start;
    while i < end
        invariant
            start <= i <= end <= all@.len(),
            want == all@.subrange(start as int, end as int),
            items@.len() == i - start,
            forall|j: int| 0 <= j < items@.len() ==> cloned(want[j], #[trigger] items@[j]),
        decreases end - i,
    {
        let item = all[i].clone();
        assert(want[i - start] == all@[i as int]);
        items.push(item);
        i = i + 1;
    }
    #[verifier::truncate]
    let next_offset = end as u32;
    Page { items, has_more: end < total, next_offset }
}

/// Asking on from the next offset neither skips nor repeats an entry.
pub proof fn pages_join<T>(all: Seq<T>, offset: int, first: int, second: int)
    requires
        0 <= offset,
        0 <= first,
        0 <= second,
    ensures
        ({
            let next = page_end(all.len(), offset, first);
            page_items(all, offset, first) + page_items(all, next, second) == all.subrange(
                page_start(all.len(), offset),
                page_end(all.len(), next, second),
            )
        }),
{
    let next = page_end(all.len(), offset, first);
    assert(page_items(all, offset, first) + page_items(all, next, second) =~= all.subrange(
        page_start(all.len(), offset),
        page_end(all.len(), next, second),
    ));
}

/// A page that is not the last one is full, and the pages from the first on make up the
/// whole list when no more follow.
pub proof fn pages_end<T>(all: Seq<T>, offset: int, page_size: int)
    requires
        0 <= offset,
        0 <= page_size,
    ensures
        page_end(all.len(), offset, page_size) < all.len() ==> page_items(
            all,
            offset,
            page_size,
        ).len() == page_size,
        page_end(all.len(), offset, page_size) == all.len() ==> page_items(all, offset, page_size)
            == all.skip(page_start(all.len(), offset)),
{
    if page_end(all.len(), offset, page_size) == all.len() {
        assert(page_items(all, offset, page_size) =~= all.skip(page_start(all.len(), offset)));
    }
}

/// A station of the configuration.
#[derive(Debug, PartialEq, Eq)]
pub struct ConfiguredStation {
    pub name: String,
    pub enabled: bool,
}

impl Clone for ConfiguredStation {
    fn clone(&self) -> (r: Self)
        ensures
            r == *self,
    {
        ConfiguredStation { name: self.name.clone(), enabled: self.enabled }
    }
}

/// The stations of the configuration.
pub open spec fn configured(config: AppConfig) -> Seq<ConfiguredStation> {
    Seq::new(
        config.stations@.len(),
        |i: int|
            ConfiguredStation {
                name: config.stations@[i].name,
                enabled: config.stations@[i].enabled,
            },
    )
}

/// A page of the stations of the configuration.
pub fn configured_stations_page(config: &AppConfig, offset: usize, page_size: usize) -> (r: Page<
    ConfiguredStation,
>)
    ensures
        r.items@ == page_items(configured(*config), offset as int, page_size as int),
        r.has_more == (page_end(config.stations@.len(), offset as int, page_size as int)
            < config.stations@.len()),
        r.next_offset == page_end(
            config.stations@.len(),
            offset as int,
            page_size as int,
        ) as u32,
{
    let mut all: Vec<ConfiguredStation> = Vec::new();
    let mut i: usize = 0;
    while i < config.stations.len()
        invariant
            i <= config.stations@.len(),
            all@ == configured(*config).take(i as int),
        decreases config.stations@.len() - i,
    {
        let station = &config.stations[i];
        all.push(ConfiguredStation { name: station.name.clone(), enabled: station.enabled });
        assert(all@ =~= configured(*config).take(i + 1));
        i = i + 1;
    }
    assert(all@ =~= configured(*config));
    let page = paginate(&all, offset, page_size);
    assert(page.items@ =~= page_items(all@, offset as int, page_size as int));
    page
}

/// The page that a request asks for: offset and size. A payload that cannot be decoded or
/// asks for too much is refused.
pub fn requested_page(
    decoded: Result<(u32, u32), String>,
    default_page_size: u32,
    bounds: PageLimits,
) -> (r: Result<(usize, usize), RpcFailure>)
    ensures
        match decoded {
            Err(m) => r matches Err(f) && rpc::fails(f, RpcErrorCode::BadRequest, m@),
            Ok((offset, page_size)) => match limits::page_fault(
                offset,
                page_size,
                default_page_size,
                bounds,
            ) {
                Some(m) => r matches Err(f) && rpc::fails(f, RpcErrorCode::BadRequest, m),
                None => r matches Ok(p) && p.0 == offset && p.1 == limits::size_of_page(
                    page_size,
                    default_page_size,
                ),
            },
        },
{
    match decoded {
        Err(message) => Err(RpcFailure::new(RpcErrorCode::BadRequest, message)),
        Ok((offset, page_size)) => {
            match normalize_pagination(offset, page_size, default_page_size, bounds) {
                Ok(page) => Ok(page),
                Err(message) => Err(RpcFailure::new(RpcErrorCode::BadRequest, message)),
            }
        },
    }
}

/// The answer to a request for the configured stations.
pub fn handle_list_configured_stations(
    config: &AppConfig,
    decoded: Result<(u32, u32), String>,
    bounds: PageLimits,
) -> (r: Reply<Page<ConfiguredStation>>)
    ensures
        match decoded {
            Err(m) => r matches Reply::Error(f) && rpc::fails(f, RpcErrorCode::BadRequest, m@),
            Ok((offset, page_size)) => match limits::page_fault(
                offset,
                page_size,
                DEFAULT_PAGE_SIZE,
                bounds,
            ) {
                Some(m) => r matches Reply::Error(f) && rpc::fails(
                    f,
                    RpcErrorCode::BadRequest,
                    m,
                ),
                None => {
                    let size = limits::size_of_page(page_size, DEFAULT_PAGE_SIZE) as int;
                    let len = config.stations@.len();
                    &&& r matches Reply::Done(p)
                    &&& p.items@ == page_items(configured(*config), offset as int, size)
                    &&& p.has_more == (page_end(len, offset as int, size) < len)
                    &&& p.next_offset == page_end(len, offset as int, size) as u32
                },
            },
        },
{
    match requested_page(decoded, DEFAULT_PAGE_SIZE, bounds) {
        Err(failure) => Reply::Error(failure),
        Ok((offset, page_size)) => Reply::Done(
            configured_stations_page(config, offset, page_size),
        ),
    }
}

/// A page holds the entries from its offset on, as many as it has room for or as there are,
/// and the next page starts behind them.
pub proof fn pages_hold_what_follows_the_offset<T>(
    all: Seq<T>,
    offset: int,
    page_size: int,
    i: int,
)
    requires
        0 <= offset,
        0 <= page_size,
    ensures
        offset <= all.len() ==> page_items(all, offset, page_size).len() == if page_size
            <= all.len() - offset {
            page_size
        } else {
            all.len() - offset
        },
        offset > all.len() ==> page_items(all, offset, page_size).len() == 0,
        0 <= i < page_items(all, offset, page_size).len() ==> page_items(all, offset, page_size)[i]
            == all[offset + i],
        offset <= all.len() ==> page_end(all.len(), offset, page_size) == offset + page_items(
            all,
            offset,
            page_size,
        ).len(),
        offset > all.len() ==> page_end(all.len(), offset, page_size) == all.len(),
{
}

/// A page tells whether entries follow it, and where they start.
pub proof fn pages_tell_what_follows<T: Clone>(
    p: Page<T>,
    all: Seq<T>,
    offset: int,
    page_size: int,
)
    requires
        is_page(p, all, offset, page_size),
        0 <= offset <= all.len(),
        0 <= page_size,
        all.len() <= u32::MAX,
    ensures
        p.items@.len() <= page_size,
        p.next_offset == offset + p.items@.len(),
        p.has_more <==> p.next_offset < all.len(),
        p.has_more ==> p.items@.len() == page_size,
        forall|i: int|
            0 <= i < p.items@.len() ==> cloned(all[offset + i], #[trigger] p.items@[i]),
{
    pages_hold_what_follows_the_offset(all, offset, page_size, 0);
    let items = page_items(all, offset, page_size);
    assert forall|i: int| 0 <= i < p.items@.len() implies cloned(
        all[offset + i],
        #[trigger] p.items@[i],
    ) by {
        pages_hold_what_follows_the_offset(all, offset, page_size, i);
        assert(cloned(items[i], p.items@[i]));
    }
}

/// The stations of the configuration are listed as they stand there.
pub proof fn configured_stations_are_listed(config: AppConfig, i: int)
    requires
        0 <= i < config.stations@.len(),
    ensures
        configured(config).len() == config.stations@.len(),
        configured(config)[i].name@ == config.stations@[i].name@,
        configured(config)[i].enabled == config.stations@[i].enabled,
{
}

} // verus!
