//! Finding stations, cities and provinces by a part of their name, and a station by its
//! whole name.

use vstd::prelude::*;
use crate::catalog::{City, Province};
use crate::page::{self, paginate, Page};
use crate::population::ProviderCatalog;
use crate::provider::{ProviderCity, ProviderProvince};
use crate::report::StationRef;
use crate::rpc::{self, Reply, RpcErrorCode, RpcFailure};
use crate::sorting::{self, Ranked};
use crate::station::{self, canonical_station_name, city_to_provider_station, short_region_name, ProviderStation};
use crate::text;

verus! {

/// Something that a search may find.
#[derive(Debug, PartialEq, Eq)]
pub enum SearchCandidate {
    Station(ProviderStation),
    City(ProviderCity),
    Province(ProviderProvince),
}

impl Clone for SearchCandidate {
    fn clone(&self) -> (r: Self)
        ensures
            r == *self,
    {
        match self {
            SearchCandidate::Station(s) => SearchCandidate::Station(s.clone()),
            SearchCandidate::City(c) => SearchCandidate::City(c.clone()),
            SearchCandidate::Province(p) => SearchCandidate::Province(p.clone()),
        }
    }
}

/// The city, its province or their canonical name holds the query.
pub open spec fn city_found(city: ProviderCity, query: Seq<char>) -> bool {
    ||| text::occurs(city.city@, query)
    ||| text::occurs(city.province@, query)
    ||| text::occurs(station::canonical_name(city.province@, city.city@), query)
}

/// Whether the city, its province or their canonical name holds the query.
pub fn city_matches(city: &ProviderCity, query: &str) -> (r: bool)
    ensures
        r == city_found(*city, query@),
{
    text::contains(city.city.as_str(), query) || text::contains(city.province.as_str(), query)
        || text::contains(
        canonical_station_name(city.province.as_str(), city.city.as_str()).as_str(),
        query,
    )
}

/// Those of the first `n` cities that a query finds.
pub open spec fn found_cities(cities: Seq<ProviderCity>, n: nat, query: Seq<char>) -> Seq<
    ProviderCity,
>
    decreases n,
{
    if n == 0 {
        Seq::empty()
    } else {
        let before = found_cities(cities, (n - 1) as nat, query);
        if city_found(cities[n - 1], query) {
            before.push(cities[n - 1])
        } else {
            before
        }
    }
}

/// Those of the first `n` provinces that a query finds.
pub open spec fn found_provinces(
    provinces: Seq<ProviderProvince>,
    n: nat,
    query: Seq<char>,
) -> Seq<ProviderProvince>
    decreases n,
{
    if n == 0 {
        Seq::empty()
    } else {
        let before = found_provinces(provinces, (n - 1) as nat, query);
        if text::occurs(provinces[n - 1].name@, query) {
            before.push(provinces[n - 1])
        } else {
            before
        }
    }
}

/// The two candidates at `at` are the station of a city, and the city.
pub open spec fn pair_at<F: Fn(&str) -> String>(
    all: Seq<SearchCandidate>,
    at: int,
    city: ProviderCity,
    provider: Seq<char>,
    uuid_of: F,
) -> bool {
    &&& all[at] matches SearchCandidate::Station(s)
    &&& station::station_of_city(s, provider, city.provider_province_code@, city)
    &&& station::identified(uuid_of, s.name@, s.unified_uuid@)
    &&& all[at + 1] == SearchCandidate::City(city)
}

/// `all` holds the station and the city for each of the cities, then the provinces.
pub open spec fn gathered<F: Fn(&str) -> String>(
    all: Seq<SearchCandidate>,
    cities: Seq<ProviderCity>,
    provinces: Seq<ProviderProvince>,
    provider: Seq<char>,
    uuid_of: F,
) -> bool {
    &&& all.len() == 2 * cities.len() + provinces.len()
    &&& forall|i: int|
        0 <= i < cities.len() ==> pair_at(all, 2 * i, #[trigger] cities[i], provider, uuid_of)
    &&& forall|i: int|
        0 <= i < provinces.len() ==> all[2 * cities.len() + i] == SearchCandidate::Province(
            #[trigger] provinces[i],
        )
}

/// What a query finds, in the order of the catalog.
pub fn gather_candidates<F: Fn(&str) -> String>(
    provider_name: &str,
    catalog: &ProviderCatalog,
    query: &str,
    uuid_of: &F,
) -> (r: Vec<SearchCandidate>)
    requires
        station::total(*uuid_of),
    ensures
        gathered(
            r@,
            found_cities(catalog.cities@, catalog.cities@.len(), query@),
            found_provinces(catalog.provinces@, catalog.provinces@.len(), query@),
            provider_name@,
            *uuid_of,
        ),
{
    let mut all: Vec<SearchCandidate> = Vec::new();
    let mut i: usize = 0;
    while i < catalog.cities.len()
        invariant
            i <= catalog.cities@.len(),
            station::total(*uuid_of),
            gathered(
                all@,
                found_cities(catalog.cities@, i as nat, query@),
                Seq::empty(),
                provider_name@,
                *uuid_of,
            ),
        decreases catalog.cities@.len() - i,
    {
        let city = &catalog.cities[i];
        if city_matches(city, query) {
            let ghost before = all@;
            let ghost found = found_cities(catalog.cities@, i as nat, query@);
            let station = city_to_provider_station(
                provider_name,
                city.provider_province_code.as_str(),
                city,
                uuid_of,
            );
            all.push(SearchCandidate::Station(station));
            all.push(SearchCandidate::City(city.clone()));
            let ghost next = found.push(*city);
            assert forall|j: int| 0 <= j < next.len() implies pair_at(
                all@,
                2 * j,
                #[trigger] next[j],
                provider_name@,
                *uuid_of,
            ) by {
                if j < found.len() {
                    assert(pair_at(before, 2 * j, found[j], provider_name@, *uuid_of));
                    assert(all@[2 * j] == before[2 * j]);
                    assert(all@[2 * j + 1] == before[2 * j + 1]);
                }
            }
        }
        i = i + 1;
    }
    let ghost cities = found_cities(catalog.cities@, catalog.cities@.len(), query@);
    let mut k: usize = 0;
    while k < catalog.provinces.len()
        invariant
            k <= catalog.provinces@.len(),
            gathered(
                all@,
                cities,
                found_provinces(catalog.provinces@, k as nat, query@),
                provider_name@,
                *uuid_of,
            ),
        decreases catalog.provinces@.len() - k,
    {
        let province = &catalog.provinces[k];
        if text::contains(province.name.as_str(), query) {
            let ghost before = all@;
            let ghost found = found_provinces(catalog.provinces@, k as nat, query@);
            all.push(SearchCandidate::Province(province.clone()));
            let ghost next = found.push(*province);
            assert forall|j: int| 0 <= j < cities.len() implies pair_at(
                all@,
                2 * j,
                #[trigger] cities[j],
                provider_name@,
                *uuid_of,
            ) by {
                assert(pair_at(before, 2 * j, cities[j], provider_name@, *uuid_of));
                assert(all@[2 * j] == before[2 * j]);
                assert(all@[2 * j + 1] == before[2 * j + 1]);
            }
            assert forall|j: int| 0 <= j < next.len() implies all@[2 * cities.len() + j]
                == SearchCandidate::Province(#[trigger] next[j]) by {
                if j < found.len() {
                    assert(before[2 * cities.len() + j] == SearchCandidate::Province(found[j]));
                }
            }
        }
        k = k + 1;
    }
    all
}

/// How well the best of some texts fits a query: it is the query, starts with it, or
/// neither.
pub open spec fn fit(values: Seq<Seq<char>>, query: Seq<char>) -> u8 {
    if values.contains(query) {
        0
    } else if exists|i: int| 0 <= i < values.len() && text::begins(#[trigger] values[i], query) {
        1
    } else {
        2
    }
}

/// How well the best of some texts fits a query.
pub fn match_rank(values: &Vec<&str>, query: &str) -> (r: u8)
    ensures
        r == fit(text::strs(values@), query@),
{
    let ghost all = text::strs(values@);
    let mut best: u8 = 2;
    let mut i: usize = 0;
    while i < values.len()
        invariant
            i <= values@.len(),
            all == text::strs(values@),
            best == 1 || best == 2,
            forall|j: int| 0 <= j < i ==> #[trigger] all[j] != query@,
            best == 1 ==> exists|j: int| 0 <= j < i && text::begins(#[trigger] all[j], query@),
            best == 2 ==> forall|j: int| 0 <= j < i ==> !text::begins(#[trigger] all[j], query@),
        decreases values@.len() - i,
    {
        assert(all[i as int] == values@[i as int]@);
        if text::same(values[i], query) {
            assert(all.contains(query@));
            return 0;
        }
        if text::starts_with(values[i], query) {
            best = 1;
        }
        i = i + 1;
    }
    assert(!all.contains(query@));
    best
}

/// Stations come first, then cities, then provinces.
pub open spec fn kind_of(c: SearchCandidate) -> u8 {
    match c {
        SearchCandidate::Station(_) => 0,
        SearchCandidate::City(_) => 1,
        SearchCandidate::Province(_) => 2,
    }
}

/// The texts of a candidate that are held against the query.
pub open spec fn compared(c: SearchCandidate) -> Seq<Seq<char>> {
    match c {
        SearchCandidate::Station(s) => seq![s.name@, s.province@, s.city@],
        SearchCandidate::City(c) => seq![
            c.city@,
            c.province@,
            station::canonical_name(c.province@, c.city@),
        ],
        SearchCandidate::Province(p) => seq![p.name@],
    }
}

/// What a station is sorted by.
pub open spec fn station_key(s: ProviderStation) -> Seq<Seq<char>> {
    seq![s.name@, s.province@, s.city@, s.provider_station_id@]
}

/// What candidates of one kind that fit equally well are sorted by.
pub open spec fn sort_key(c: SearchCandidate) -> Seq<Seq<char>> {
    match c {
        SearchCandidate::Station(s) => station_key(s),
        SearchCandidate::City(c) => seq![
            c.province@,
            c.city@,
            c.provider_province_code@,
            c.provider_code@,
        ],
        SearchCandidate::Province(p) => seq![p.name@, p.provider_code@],
    }
}

/// How well a candidate fits a query.
pub fn candidate_match_rank(candidate: &SearchCandidate, query: &str) -> (r: u8)
    ensures
        r == fit(compared(*candidate), query@),
{
    match candidate {
        SearchCandidate::Station(s) => {
            let values = vec![s.name.as_str(), s.province.as_str(), s.city.as_str()];
            assert(text::strs(values@) =~= compared(*candidate));
            match_rank(&values, query)
        },
        SearchCandidate::City(c) => {
            let canonical = canonical_station_name(c.province.as_str(), c.city.as_str());
            let values = vec![c.city.as_str(), c.province.as_str(), canonical.as_str()];
            assert(text::strs(values@) =~= compared(*candidate));
            match_rank(&values, query)
        },
        SearchCandidate::Province(p) => {
            let values = vec![p.name.as_str()];
            assert(text::strs(values@) =~= compared(*candidate));
            match_rank(&values, query)
        },
    }
}

/// A candidate with its kind and with how well it fits.
#[derive(Debug)]
pub struct RankedCandidate {
    pub kind: u8,
    pub fit: u8,
    pub candidate: SearchCandidate,
}

fn key_of(c: &SearchCandidate) -> (r: Vec<&str>)
    ensures
        text::strs(r@) == sort_key(*c),
{
    match c {
        SearchCandidate::Station(s) => {
            let key = vec![
                s.name.as_str(),
                s.province.as_str(),
                s.city.as_str(),
                s.provider_station_id.as_str(),
            ];
            assert(text::strs(key@) =~= sort_key(*c));
            key
        },
        SearchCandidate::City(c2) => {
            let key = vec![
                c2.province.as_str(),
                c2.city.as_str(),
                c2.provider_province_code.as_str(),
                c2.provider_code.as_str(),
            ];
            assert(text::strs(key@) =~= sort_key(*c));
            key
        },
        SearchCandidate::Province(p) => {
            let key = vec![p.name.as_str(), p.provider_code.as_str()];
            assert(text::strs(key@) =~= sort_key(*c));
            key
        },
    }
}

impl Ranked for RankedCandidate {
    open spec fn le(a: Self, b: Self) -> bool {
        if a.kind != b.kind {
            a.kind < b.kind
        } else if a.fit != b.fit {
            a.fit < b.fit
        } else {
            text::keys_le(sort_key(a.candidate), sort_key(b.candidate))
        }
    }

    proof fn le_total(a: Self, b: Self) {
        text::keys_le_total(sort_key(a.candidate), sort_key(b.candidate));
    }

    proof fn le_transitive(a: Self, b: Self, c: Self) {
        if a.kind == b.kind && b.kind == c.kind && a.fit == b.fit && b.fit == c.fit {
            text::keys_le_transitive(
                sort_key(a.candidate),
                sort_key(b.candidate),
                sort_key(c.candidate),
            );
        }
    }

    fn is_le(&self, other: &Self) -> (r: bool) {
        if self.kind != other.kind {
            self.kind < other.kind
        } else if self.fit != other.fit {
            self.fit < other.fit
        } else {
            text::keys_precede(&key_of(&self.candidate), &key_of(&other.candidate))
        }
    }
}

/// The candidate with its rank.
pub open spec fn rank_of(c: SearchCandidate, query: Seq<char>) -> RankedCandidate {
    RankedCandidate { kind: kind_of(c), fit: fit(compared(c), query), candidate: c }
}

/// The candidates with their ranks.
pub open spec fn with_ranks(all: Seq<SearchCandidate>, query: Seq<char>) -> Seq<RankedCandidate> {
    Seq::new(all.len(), |i: int| rank_of(all[i], query))
}

/// Who a candidate is: its kind, and what tells it from others of its kind.
pub open spec fn identity(c: SearchCandidate) -> (u8, Seq<char>, Seq<char>) {
    match c {
        SearchCandidate::Station(s) => (0, s.unified_uuid@, Seq::empty()),
        SearchCandidate::City(c) => (1, c.province@, c.city@),
        SearchCandidate::Province(p) => (2, p.name@, Seq::empty()),
    }
}

/// Whether two candidates are the same station, city or province.
pub fn same_candidate(a: &SearchCandidate, b: &SearchCandidate) -> (r: bool)
    ensures
        r == (identity(*a) == identity(*b)),
{
    match (a, b) {
        (SearchCandidate::Station(x), SearchCandidate::Station(y)) => text::same(
            x.unified_uuid.as_str(),
            y.unified_uuid.as_str(),
        ),
        (SearchCandidate::City(x), SearchCandidate::City(y)) => text::same(
            x.province.as_str(),
            y.province.as_str(),
        ) && text::same(x.city.as_str(), y.city.as_str()),
        (SearchCandidate::Province(x), SearchCandidate::Province(y)) => text::same(
            x.name.as_str(),
            y.name.as_str(),
        ),
        _ => false,
    }
}

/// A candidate of the list is the same station, city or province.
pub open spec fn known(list: Seq<SearchCandidate>, c: SearchCandidate) -> bool {
    exists|i: int| 0 <= i < list.len() && identity(#[trigger] list[i]) == identity(c)
}

/// The first `n` candidates, without those that occur before.
pub open spec fn once_each(ranked: Seq<RankedCandidate>, n: nat) -> Seq<SearchCandidate>
    decreases n,
{
    if n == 0 {
        Seq::empty()
    } else {
        let before = once_each(ranked, (n - 1) as nat);
        let c = ranked[n - 1].candidate;
        if known(before, c) {
            before
        } else {
            before.push(c)
        }
    }
}

/// The candidates in their order, each once.
pub open spec fn best_first(all: Seq<SearchCandidate>, query: Seq<char>) -> Seq<SearchCandidate> {
    once_each(sorting::arranged(with_ranks(all, query)), all.len())
}

fn is_known(list: &Vec<SearchCandidate>, c: &SearchCandidate) -> (r: bool)
    ensures
        r == known(list@, *c),
{
    let mut i: usize = 0;
    while i < list.len()
        invariant
            i <= list@.len(),
            forall|j: int| 0 <= j < i ==> identity(#[trigger] list@[j]) != identity(*c),
        decreases list@.len() - i,
    {
        if same_candidate(&list[i], c) {
            return true;
        }
        i = i + 1;
    }
    false
}

/// The candidates in their order, each once.
pub fn order_candidates(all: Vec<SearchCandidate>, query: &str) -> (r: Vec<SearchCandidate>)
    ensures
        r@ == best_first(all@, query@),
{
    let mut ranked: Vec<RankedCandidate> = Vec::new();
    let mut i: usize = 0;
    while i < all.len()
        invariant
            i <= all@.len(),
            ranked@ == with_ranks(all@, query@).take(i as int),
        decreases all@.len() - i,
    {
        let kind: u8 = match &all[i] {
            SearchCandidate::Station(_) => 0,
            SearchCandidate::City(_) => 1,
            SearchCandidate::Province(_) => 2,
        };
        let fit = candidate_match_rank(&all[i], query);
        ranked.push(RankedCandidate { kind, fit, candidate: all[i].clone() });
        assert(ranked@ =~= with_ranks(all@, query@).take(i + 1));
        i = i + 1;
    }
    assert(ranked@ =~= with_ranks(all@, query@));
    let sorted = sorting::sort(ranked);
    let ghost order = sorting::arranged(with_ranks(all@, query@));
    proof {
        broadcast use vstd::seq_lib::group_to_multiset_ensures;

        assert(sorted@.len() == sorted@.to_multiset().len());
        assert(with_ranks(all@, query@).len() == with_ranks(all@, query@).to_multiset().len());
    }
    let mut once: Vec<SearchCandidate> = Vec::new();
    let mut k: usize = 0;
    while k < sorted.len()
        invariant
            k <= sorted@.len(),
            sorted@ == order,
            once@ == once_each(order, k as nat),
        decreases sorted@.len() - k,
    {
        if !is_known(&once, &sorted[k].candidate) {
            once.push(sorted[k].candidate.clone());
        }
        k = k + 1;
    }
    once
}

/// What a query finds: stations first, then cities, then provinces; of a kind what fits
/// best first; and each once.
pub fn search_candidates<F: Fn(&str) -> String>(
    provider_name: &str,
    catalog: &ProviderCatalog,
    query: &str,
    uuid_of: &F,
) -> (r: Vec<SearchCandidate>)
    requires
        station::total(*uuid_of),
    ensures
        exists|all: Seq<SearchCandidate>| #[trigger]
            gathered(
                all,
                found_cities(catalog.cities@, catalog.cities@.len(), query@),
                found_provinces(catalog.provinces@, catalog.provinces@.len(), query@),
                provider_name@,
                *uuid_of,
            ) && r@ == best_first(all, query@),
{
    let all = gather_candidates(provider_name, catalog, query, uuid_of);
    order_candidates(all, query)
}

proof fn lemma_once_each(ranked: Seq<RankedCandidate>, n: nat, i: int, j: int)
    requires
        n <= ranked.len(),
        0 <= i < j < once_each(ranked, n).len(),
    ensures
        identity(once_each(ranked, n)[i]) != identity(once_each(ranked, n)[j]),
        exists|a: int, b: int|
            0 <= a < b < n && (#[trigger] ranked[a]).candidate == once_each(ranked, n)[i] && (
            #[trigger] ranked[b]).candidate == once_each(ranked, n)[j],
    decreases n,
{
    let before = once_each(ranked, (n - 1) as nat);
    if j < before.len() {
        lemma_once_each(ranked, (n - 1) as nat, i, j);
    } else {
        lemma_once_each_member(ranked, (n - 1) as nat, i);
        let a = choose|a: int|
            0 <= a < n - 1 && (#[trigger] ranked[a]).candidate == before[i];
        assert(ranked[n - 1].candidate == once_each(ranked, n)[j]);
        assert(ranked[a].candidate == once_each(ranked, n)[i]);
    }
}

proof fn lemma_once_each_member(ranked: Seq<RankedCandidate>, n: nat, i: int)
    requires
        n <= ranked.len(),
        0 <= i < once_each(ranked, n).len(),
    ensures
        exists|a: int|
            0 <= a < n && (#[trigger] ranked[a]).candidate == once_each(ranked, n)[i],
    decreases n,
{
    let before = once_each(ranked, (n - 1) as nat);
    if i < before.len() {
        lemma_once_each_member(ranked, (n - 1) as nat, i);
        let a = choose|a: int|
            0 <= a < n - 1 && (#[trigger] ranked[a]).candidate == before[i];
        assert(ranked[a].candidate == once_each(ranked, n)[i]);
    } else {
        assert(ranked[n - 1].candidate == once_each(ranked, n)[i]);
    }
}

proof fn lemma_once_each_covers(ranked: Seq<RankedCandidate>, n: nat, i: int)
    requires
        0 <= i < n <= ranked.len(),
    ensures
        known(once_each(ranked, n), ranked[i].candidate),
    decreases n,
{
    let before = once_each(ranked, (n - 1) as nat);
    let after = once_each(ranked, n);
    if i < n - 1 {
        lemma_once_each_covers(ranked, (n - 1) as nat, i);
        let k = choose|k: int|
            0 <= k < before.len() && identity(#[trigger] before[k]) == identity(
                ranked[i].candidate,
            );
        assert(after[k] == before[k]);
    } else if !known(before, ranked[i].candidate) {
        assert(after[before.len() as int] == ranked[i].candidate);
    }
}

proof fn lemma_ranks(all: Seq<SearchCandidate>, query: Seq<char>, a: int)
    requires
        0 <= a < all.len(),
    ensures
        sorting::arranged(with_ranks(all, query)).len() == all.len(),
        sorting::arranged(with_ranks(all, query))[a] == rank_of(
            sorting::arranged(with_ranks(all, query))[a].candidate,
            query,
        ),
        all.contains(sorting::arranged(with_ranks(all, query))[a].candidate),
{
    let ranks = with_ranks(all, query);
    let order = sorting::arranged(ranks);
    sorting::sorting_keeps_values(ranks, ranks[a]);
    sorting::sorting_keeps_values(ranks, order[a]);
    assert(order.contains(order[a]));
    let k = choose|k: int| 0 <= k < ranks.len() && ranks[k] == order[a];
    assert(all[k] == order[a].candidate);
}

/// Nothing is found twice.
pub proof fn nothing_is_found_twice(
    all: Seq<SearchCandidate>,
    query: Seq<char>,
    i: int,
    j: int,
)
    requires
        0 <= i < j < best_first(all, query).len(),
    ensures
        identity(best_first(all, query)[i]) != identity(best_first(all, query)[j]),
{
    sorting::sorting_keeps_values(with_ranks(all, query), rank_of(all[0], query));
    lemma_once_each(sorting::arranged(with_ranks(all, query)), all.len(), i, j);
}

/// Whatever was a candidate is found, itself or in the shape of a better one that is the
/// same station, city or province.
pub proof fn nothing_is_lost(all: Seq<SearchCandidate>, query: Seq<char>, i: int)
    requires
        0 <= i < all.len(),
    ensures
        known(best_first(all, query), all[i]),
{
    let ranks = with_ranks(all, query);
    let order = sorting::arranged(ranks);
    sorting::sorting_keeps_values(ranks, ranks[i]);
    assert(ranks.contains(ranks[i]));
    let k = choose|k: int| 0 <= k < order.len() && order[k] == ranks[i];
    lemma_once_each_covers(order, all.len(), k);
}

/// Nothing is found that was no candidate.
pub proof fn nothing_is_made_up(all: Seq<SearchCandidate>, query: Seq<char>, i: int)
    requires
        0 <= i < best_first(all, query).len(),
    ensures
        all.contains(best_first(all, query)[i]),
{
    let order = sorting::arranged(with_ranks(all, query));
    sorting::sorting_keeps_values(with_ranks(all, query), rank_of(all[0], query));
    lemma_once_each_member(order, all.len(), i);
    let a = choose|a: int|
        0 <= a < all.len() && (#[trigger] order[a]).candidate == best_first(all, query)[i];
    lemma_ranks(all, query, a);
}

/// What is found stands in its order: stations before cities before provinces, of a kind
/// what fits better first, and of those that fit alike by their keys.
pub proof fn better_comes_first(all: Seq<SearchCandidate>, query: Seq<char>, i: int, j: int)
    requires
        0 <= i < j < best_first(all, query).len(),
    ensures
        RankedCandidate::le(
            rank_of(best_first(all, query)[i], query),
            rank_of(best_first(all, query)[j], query),
        ),
{
    let ranks = with_ranks(all, query);
    let order = sorting::arranged(ranks);
    sorting::every_list_can_be_sorted(ranks);
    sorting::sorting_keeps_values(ranks, rank_of(all[0], query));
    lemma_once_each(order, all.len(), i, j);
    let (a, b) = choose|a: int, b: int|
        0 <= a < b < all.len() && (#[trigger] order[a]).candidate == best_first(all, query)[i] && (
        #[trigger] order[b]).candidate == best_first(all, query)[j];
    lemma_ranks(all, query, a);
    lemma_ranks(all, query, b);
    assert(RankedCandidate::le(order[a], order[b]));
}

/// What a search answers: one page, by kind.
#[derive(Debug, PartialEq, Eq)]
pub struct FuzzyMatchStationsResponse {
    pub stations: Vec<StationRef>,
    pub cities: Vec<City>,
    pub provinces: Vec<Province>,
    pub has_more: bool,
    pub next_offset: u32,
}

/// The stations among the first `n` candidates.
pub open spec fn stations_in(page: Seq<SearchCandidate>, n: nat) -> Seq<ProviderStation>
    decreases n,
{
    if n == 0 {
        Seq::empty()
    } else {
        let before = stations_in(page, (n - 1) as nat);
        match page[n - 1] {
            SearchCandidate::Station(s) => before.push(s),
            _ => before,
        }
    }
}

/// The cities among the first `n` candidates, as they are listed.
pub open spec fn cities_in(page: Seq<SearchCandidate>, n: nat) -> Seq<City>
    decreases n,
{
    if n == 0 {
        Seq::empty()
    } else {
        let before = cities_in(page, (n - 1) as nat);
        match page[n - 1] {
            SearchCandidate::City(c) => before.push(City { province: c.province, city: c.city }),
            _ => before,
        }
    }
}

/// The provinces among the first `n` candidates, as they are listed.
pub open spec fn provinces_in(page: Seq<SearchCandidate>, n: nat) -> Seq<Province>
    decreases n,
{
    if n == 0 {
        Seq::empty()
    } else {
        let before = provinces_in(page, (n - 1) as nat);
        match page[n - 1] {
            SearchCandidate::Province(p) => before.push(Province { name: p.name }),
            _ => before,
        }
    }
}

/// The public references of stations.
pub open spec fn public_refs(stations: Seq<ProviderStation>) -> Seq<StationRef> {
    Seq::new(stations.len(), |i: int| station::public(stations[i]))
}

/// The page of what was found, by kind, and the stations on it, whose names are to be
/// remembered before the page is answered.
pub fn fuzzy(candidates: &Vec<SearchCandidate>, offset: usize, page_size: usize) -> (r: (
    FuzzyMatchStationsResponse,
    Vec<ProviderStation>,
))
    ensures
        ({
            let all = candidates@;
            let shown = page::page_items(all, offset as int, page_size as int);
            let end = page::page_end(all.len(), offset as int, page_size as int);
            &&& r.1@ == stations_in(shown, shown.len())
            &&& r.0.stations@ == public_refs(r.1@)
            &&& r.0.cities@ == cities_in(shown, shown.len())
            &&& r.0.provinces@ == provinces_in(shown, shown.len())
            &&& r.0.has_more == (end < all.len())
            &&& r.0.next_offset == end as u32
        }),
{
    let ghost shown = page::page_items(candidates@, offset as int, page_size as int);
    let Page { items, has_more, next_offset } = paginate(candidates, offset, page_size);
    assert(items@ =~= shown);
    let mut found: Vec<ProviderStation> = Vec::new();
    let mut stations: Vec<StationRef> = Vec::new();
    let mut cities: Vec<City> = Vec::new();
    let mut provinces: Vec<Province> = Vec::new();
    let mut i: usize = 0;
    assert(stations@ =~= public_refs(found@));
    while i < items.len()
        invariant
            items@ == shown,
            i <= shown.len(),
            found@ == stations_in(shown, i as nat),
            stations@ == public_refs(found@),
            cities@ == cities_in(shown, i as nat),
            provinces@ == provinces_in(shown, i as nat),
        decreases shown.len() - i,
    {
        match &items[i] {
            SearchCandidate::Station(s) => {
                stations.push(s.public_ref());
                found.push(s.clone());
                assert(stations@ =~= public_refs(found@));
            },
            SearchCandidate::City(c) => {
                cities.push(c.public_ref());
            },
            SearchCandidate::Province(p) => {
                provinces.push(p.public_ref());
            },
        }
        i = i + 1;
    }
    (FuzzyMatchStationsResponse { stations, cities, provinces, has_more, next_offset }, found)
}

/// The answer to a search.
pub fn fuzzy_reply(result: Result<FuzzyMatchStationsResponse, String>) -> (r: Reply<
    FuzzyMatchStationsResponse,
>)
    ensures
        match result {
            Ok(response) => r == Reply::Done(response),
            Err(m) => r matches Reply::Error(f) && rpc::fails(f, RpcErrorCode::Fuzzy, m@),
        },
{
    match result {
        Ok(response) => Reply::Done(response),
        Err(message) => Reply::Error(RpcFailure::new(RpcErrorCode::Fuzzy, message)),
    }
}

/// What is to be remembered of a station: under its canonical name, how the provider
/// knows it.
pub fn station_mapping(found: &ProviderStation) -> (r: ProviderStation)
    ensures
        r.display_name@ == station::canonical_name(found.province@, found.city@),
        r == (ProviderStation { display_name: r.display_name, ..*found }),
{
    let mut mapping = found.clone();
    mapping.display_name = canonical_station_name(found.province.as_str(), found.city.as_str());
    mapping
}

/// The part of a station's name that tells its province: what stands before the first
/// dash.
pub open spec fn hint_in(name: Seq<char>) -> Seq<char> {
    text::pieces(name, '-')[0]
}

/// A station of this name may lie in the province.
pub open spec fn may_hold(province: ProviderProvince, hint: Seq<char>, name: Seq<char>) -> bool {
    ||| province.name@ == hint
    ||| station::short_name(province.name@) == hint
    ||| text::occurs(province.name@, hint)
    ||| text::begins(name, province.name@)
}

/// Whether a station of this name may lie in the province.
pub fn province_matches_hint(province: &ProviderProvince, hint: &str, name: &str) -> (r: bool)
    ensures
        r == may_hold(*province, hint@, name@),
{
    text::same(province.name.as_str(), hint) || text::same(
        short_region_name(province.name.as_str()),
        hint,
    ) || text::contains(province.name.as_str(), hint) || text::starts_with(
        name,
        province.name.as_str(),
    )
}

/// Those of the first `n` provinces in which a station of this name may lie.
pub open spec fn holding(provinces: Seq<ProviderProvince>, n: nat, name: Seq<char>) -> Seq<
    ProviderProvince,
>
    decreases n,
{
    if n == 0 {
        Seq::empty()
    } else {
        let before = holding(provinces, (n - 1) as nat, name);
        if may_hold(provinces[n - 1], hint_in(name), name) {
            before.push(provinces[n - 1])
        } else {
            before
        }
    }
}

/// The provinces in which a station of this name may lie. Where there is none, the whole
/// catalog is to be searched.
pub fn targeted_provinces(provinces: &Vec<ProviderProvince>, name: &str) -> (r: Vec<
    ProviderProvince,
>)
    ensures
        r@ == holding(provinces@, provinces@.len(), name@),
{
    let parts = text::split(name, '-');
    proof {
        text::pieces_are_some(name@, '-');
        assert(text::texts(parts@).len() == parts@.len());
        assert(text::texts(parts@)[0] == parts@[0]@);
    }
    let hint = parts[0].as_str();
    let mut found: Vec<ProviderProvince> = Vec::new();
    let mut i: usize = 0;
    while i < provinces.len()
        invariant
            i <= provinces@.len(),
            hint@ == hint_in(name@),
            found@ == holding(provinces@, i as nat, name@),
        decreases provinces@.len() - i,
    {
        if province_matches_hint(&provinces[i], hint, name) {
            found.push(provinces[i].clone());
        }
        i = i + 1;
    }
    found
}

/// The city is the station of this name.
pub open spec fn bears(city: ProviderCity, name: Seq<char>) -> bool {
    station::canonical_name(city.province@, city.city@) == name
}

/// What the stations of one name are sorted by.
pub open spec fn bearer_key(city: ProviderCity) -> Seq<Seq<char>> {
    seq![city.province@, city.city@, city.provider_code@]
}

/// The first of the first `n` cities of this name that no other precedes.
pub open spec fn least_bearer(cities: Seq<ProviderCity>, n: nat, name: Seq<char>) -> Option<int>
    decreases n,
{
    if n == 0 {
        None
    } else {
        let before = least_bearer(cities, (n - 1) as nat, name);
        if !bears(cities[n - 1], name) {
            before
        } else {
            match before {
                Some(i) => if text::keys_le(bearer_key(cities[i]), bearer_key(cities[n - 1])) {
                    Some(i)
                } else {
                    Some(n - 1)
                },
                None => Some(n - 1),
            }
        }
    }
}

fn bearer_precedes(a: &ProviderCity, b: &ProviderCity) -> (r: bool)
    ensures
        r == text::keys_le(bearer_key(*a), bearer_key(*b)),
{
    let x = vec![a.province.as_str(), a.city.as_str(), a.provider_code.as_str()];
    let y = vec![b.province.as_str(), b.city.as_str(), b.provider_code.as_str()];
    assert(text::strs(x@) =~= bearer_key(*a));
    assert(text::strs(y@) =~= bearer_key(*b));
    text::keys_precede(&x, &y)
}

/// The station of this name. Where there are more, the one that comes first.
pub fn resolve_station_name<F: Fn(&str) -> String>(
    provider_name: &str,
    cities: &Vec<ProviderCity>,
    name: &str,
    uuid_of: &F,
) -> (r: Result<ProviderStation, String>)
    requires
        station::total(*uuid_of),
    ensures
        match least_bearer(cities@, cities@.len(), name@) {
            Some(i) => {
                &&& r matches Ok(s)
                &&& station::station_of_city(
                    s,
                    provider_name@,
                    cities@[i].provider_province_code@,
                    cities@[i],
                )
                &&& station::identified(*uuid_of, s.name@, s.unified_uuid@)
            },
            None => r matches Err(m) && m@ == "station `"@ + name@
                + "` was not found in provider station index"@,
        },
{
    let mut best: Option<usize> = None;
    let mut i: usize = 0;
    while i < cities.len()
        invariant
            i <= cities@.len(),
            match best {
                Some(k) => k < i && least_bearer(cities@, i as nat, name@) == Some(k as int),
                None => least_bearer(cities@, i as nat, name@) is None,
            },
        decreases cities@.len() - i,
    {
        let canonical = canonical_station_name(
            cities[i].province.as_str(),
            cities[i].city.as_str(),
        );
        if text::same(canonical.as_str(), name) {
            match best {
                Some(k) => {
                    if !bearer_precedes(&cities[k], &cities[i]) {
                        best = Some(i);
                    }
                },
                None => {
                    best = Some(i);
                },
            }
        }
        i = i + 1;
    }
    match best {
        Some(k) => Ok(
            city_to_provider_station(
                provider_name,
                cities[k].provider_province_code.as_str(),
                &cities[k],
                uuid_of,
            ),
        ),
        None => Err(
            text::cat("station `", name).concat("` was not found in provider station index"),
        ),
    }
}

/// A station that is found bears the name, and no other of the name precedes it.
pub proof fn found_station_comes_first(cities: Seq<ProviderCity>, n: nat, name: Seq<char>, j: int)
    requires
        0 <= j < n <= cities.len(),
        bears(cities[j], name),
    ensures
        least_bearer(cities, n, name) matches Some(i) && 0 <= i < n && bears(cities[i], name)
            && text::keys_le(bearer_key(cities[i]), bearer_key(cities[j])),
    decreases n,
{
    if j < n - 1 {
        found_station_comes_first(cities, (n - 1) as nat, name, j);
        let i = least_bearer(cities, (n - 1) as nat, name)->0;
        if bears(cities[n - 1], name) && !text::keys_le(
            bearer_key(cities[i]),
            bearer_key(cities[n - 1]),
        ) {
            text::keys_le_total(bearer_key(cities[i]), bearer_key(cities[n - 1]));
            text::keys_le_transitive(
                bearer_key(cities[n - 1]),
                bearer_key(cities[i]),
                bearer_key(cities[j]),
            );
        }
    } else {
        text::keys_le_total(bearer_key(cities[j]), bearer_key(cities[j]));
        lemma_least_bearer_in_range(cities, (n - 1) as nat, name);
    }
}

proof fn lemma_least_bearer_in_range(cities: Seq<ProviderCity>, n: nat, name: Seq<char>)
    requires
        n <= cities.len(),
    ensures
        least_bearer(cities, n, name) matches Some(i) ==> 0 <= i < n && bears(cities[i], name),
    decreases n,
{
    if n > 0 {
        lemma_least_bearer_in_range(cities, (n - 1) as nat, name);
    }
}

/// The identifier of a name, for whoever wants to follow a station.
#[derive(Debug, PartialEq, Eq)]
pub struct ResolveStationUuidResponse {
    pub name: String,
    pub unified_uuid: String,
}

/// The answer to a request for the identifier of a name. Any name has one, the empty one
/// too.
pub fn handle_resolve_station_uuid<F: Fn(&str) -> String>(
    decoded: Result<String, String>,
    uuid_of: &F,
) -> (r: Reply<ResolveStationUuidResponse>)
    requires
        station::total(*uuid_of),
    ensures
        match decoded {
            Ok(name) => r matches Reply::Done(a) && a.name == name && station::identified(
                *uuid_of,
                name@,
                a.unified_uuid@,
            ),
            Err(m) => r matches Reply::Error(f) && rpc::fails(f, RpcErrorCode::BadRequest, m@),
        },
{
    match decoded {
        Ok(name) => {
            let unified_uuid = uuid_of(name.as_str());
            Reply::Done(ResolveStationUuidResponse { name, unified_uuid })
        },
        Err(message) => rpc::undecodable(message.as_str()),
    }
}

proof fn lemma_ranked_apart(all: Seq<SearchCandidate>, query: Seq<char>, i: int, j: int)
    requires
        0 <= i < best_first(all, query).len(),
        0 <= j < best_first(all, query).len(),
        !RankedCandidate::le(
            rank_of(best_first(all, query)[j], query),
            rank_of(best_first(all, query)[i], query),
        ),
    ensures
        i < j,
{
    if j < i {
        better_comes_first(all, query, j, i);
    } else if i == j {
        RankedCandidate::le_total(
            rank_of(best_first(all, query)[i], query),
            rank_of(best_first(all, query)[i], query),
        );
    }
}

proof fn lemma_fit_of_three(a: Seq<char>, b: Seq<char>, c: Seq<char>, query: Seq<char>)
    ensures
        fit(seq![a, b, c], query) == if a == query || b == query || c == query {
            0u8
        } else if query.is_prefix_of(a) || query.is_prefix_of(b) || query.is_prefix_of(c) {
            1
        } else {
            2
        },
{
    let values = seq![a, b, c];
    assert(values[0] == a && values[1] == b && values[2] == c);
    text::occurrences_are_parts(a, query, a, a);
    text::occurrences_are_parts(b, query, b, b);
    text::occurrences_are_parts(c, query, c, c);
    if values.contains(query) {
        let k = choose|k: int| 0 <= k < values.len() && values[k] == query;
    }
    assert(text::begins(values[0], query) || text::begins(values[1], query) || text::begins(
        values[2],
        query,
    ) <==> query.is_prefix_of(a) || query.is_prefix_of(b) || query.is_prefix_of(c));
}

proof fn lemma_fit_of_one(a: Seq<char>, query: Seq<char>)
    ensures
        fit(seq![a], query) == if a == query {
            0u8
        } else if query.is_prefix_of(a) {
            1
        } else {
            2
        },
{
    let values = seq![a];
    assert(values[0] == a);
    text::occurrences_are_parts(a, query, a, a);
    if values.contains(query) {
        let k = choose|k: int| 0 <= k < values.len() && values[k] == query;
    }
}

/// Stations stand before cities, and cities before provinces.
pub proof fn kinds_stand_in_order(all: Seq<SearchCandidate>, query: Seq<char>, i: int, j: int)
    requires
        0 <= i < best_first(all, query).len(),
        0 <= j < best_first(all, query).len(),
    ensures
        best_first(all, query)[i] is Station && best_first(all, query)[j] is City ==> i < j,
        best_first(all, query)[i] is Station && best_first(all, query)[j] is Province ==> i < j,
        best_first(all, query)[i] is City && best_first(all, query)[j] is Province ==> i < j,
{
    if kind_of(best_first(all, query)[i]) < kind_of(best_first(all, query)[j]) {
        lemma_ranked_apart(all, query, i, j);
    }
}

/// Of two stations in the answer, one that has the query as its name, province or city
/// stands before one that does not; and one with a name, province or city that starts with
/// the query stands before one with none.
pub proof fn fitting_stations_stand_first(
    all: Seq<SearchCandidate>,
    query: Seq<char>,
    i: int,
    j: int,
    x: ProviderStation,
    y: ProviderStation,
)
    requires
        0 <= i < best_first(all, query).len(),
        0 <= j < best_first(all, query).len(),
        best_first(all, query)[i] == SearchCandidate::Station(x),
        best_first(all, query)[j] == SearchCandidate::Station(y),
    ensures
        (x.name@ == query || x.province@ == query || x.city@ == query) && y.name@ != query
            && y.province@ != query && y.city@ != query ==> i < j,
        (query.is_prefix_of(x.name@) || query.is_prefix_of(x.province@) || query.is_prefix_of(
            x.city@,
        )) && !query.is_prefix_of(y.name@) && !query.is_prefix_of(y.province@)
            && !query.is_prefix_of(y.city@) ==> i < j,
{
    lemma_fit_of_three(x.name@, x.province@, x.city@, query);
    lemma_fit_of_three(y.name@, y.province@, y.city@, query);
    lemma_equal_begins(y.name@, query);
    lemma_equal_begins(y.province@, query);
    lemma_equal_begins(y.city@, query);
    if fit(compared(SearchCandidate::Station(x)), query) < fit(
        compared(SearchCandidate::Station(y)),
        query,
    ) {
        lemma_ranked_apart(all, query, i, j);
    }
}

proof fn lemma_equal_begins(value: Seq<char>, query: Seq<char>)
    ensures
        value == query ==> query.is_prefix_of(value),
{
    if value == query {
        assert(value.take(query.len() as int) =~= query);
    }
}

/// Of two cities in the answer, one that has the query as its city, province or canonical
/// name stands before one that does not; and one with such a text that starts with the
/// query stands before one with none.
pub proof fn fitting_cities_stand_first(
    all: Seq<SearchCandidate>,
    query: Seq<char>,
    i: int,
    j: int,
    x: ProviderCity,
    y: ProviderCity,
)
    requires
        0 <= i < best_first(all, query).len(),
        0 <= j < best_first(all, query).len(),
        best_first(all, query)[i] == SearchCandidate::City(x),
        best_first(all, query)[j] == SearchCandidate::City(y),
    ensures
        ({
            let of_x = station::canonical_name(x.province@, x.city@);
            let of_y = station::canonical_name(y.province@, y.city@);
            &&& (x.city@ == query || x.province@ == query || of_x == query) && y.city@ != query
                && y.province@ != query && of_y != query ==> i < j
            &&& (query.is_prefix_of(x.city@) || query.is_prefix_of(x.province@)
                || query.is_prefix_of(of_x)) && !query.is_prefix_of(y.city@)
                && !query.is_prefix_of(y.province@) && !query.is_prefix_of(of_y) ==> i < j
        }),
{
    let of_x = station::canonical_name(x.province@, x.city@);
    let of_y = station::canonical_name(y.province@, y.city@);
    lemma_fit_of_three(x.city@, x.province@, of_x, query);
    lemma_fit_of_three(y.city@, y.province@, of_y, query);
    lemma_equal_begins(y.city@, query);
    lemma_equal_begins(y.province@, query);
    lemma_equal_begins(of_y, query);
    if fit(compared(SearchCandidate::City(x)), query) < fit(
        compared(SearchCandidate::City(y)),
        query,
    ) {
        lemma_ranked_apart(all, query, i, j);
    }
}

/// Of two provinces in the answer, the one that has the query as its name stands before the
/// other; and one with a name that starts with the query stands before one without.
pub proof fn fitting_provinces_stand_first(
    all: Seq<SearchCandidate>,
    query: Seq<char>,
    i: int,
    j: int,
    x: ProviderProvince,
    y: ProviderProvince,
)
    requires
        0 <= i < best_first(all, query).len(),
        0 <= j < best_first(all, query).len(),
        best_first(all, query)[i] == SearchCandidate::Province(x),
        best_first(all, query)[j] == SearchCandidate::Province(y),
    ensures
        x.name@ == query && y.name@ != query ==> i < j,
        query.is_prefix_of(x.name@) && !query.is_prefix_of(y.name@) ==> i < j,
{
    lemma_fit_of_one(x.name@, query);
    lemma_fit_of_one(y.name@, query);
    lemma_equal_begins(y.name@, query);
    if fit(compared(SearchCandidate::Province(x)), query) < fit(
        compared(SearchCandidate::Province(y)),
        query,
    ) {
        lemma_ranked_apart(all, query, i, j);
    }
}

/// Of two stations that fit the query alike, the one stands first whose name comes first;
/// of the same name the one whose province does; then by city and by identifier.
pub proof fn stations_that_fit_alike_are_sorted(
    all: Seq<SearchCandidate>,
    query: Seq<char>,
    i: int,
    j: int,
    x: ProviderStation,
    y: ProviderStation,
)
    requires
        0 <= i < best_first(all, query).len(),
        0 <= j < best_first(all, query).len(),
        best_first(all, query)[i] == SearchCandidate::Station(x),
        best_first(all, query)[j] == SearchCandidate::Station(y),
        x.name@ == query || x.province@ == query || x.city@ == query <==> y.name@ == query
            || y.province@ == query || y.city@ == query,
        query.is_prefix_of(x.name@) || query.is_prefix_of(x.province@) || query.is_prefix_of(x.city@)
            <==> query.is_prefix_of(y.name@) || query.is_prefix_of(y.province@)
            || query.is_prefix_of(y.city@),
    ensures
        x.name@ != y.name@ && text::text_le(x.name@, y.name@) ==> i < j,
        x.name@ == y.name@ && x.province@ != y.province@ && text::text_le(x.province@, y.province@)
            ==> i < j,
        x.name@ == y.name@ && x.province@ == y.province@ && x.city@ != y.city@ && text::text_le(
            x.city@,
            y.city@,
        ) ==> i < j,
        x.name@ == y.name@ && x.province@ == y.province@ && x.city@ == y.city@
            && x.provider_station_id@ != y.provider_station_id@ && text::text_le(
            x.provider_station_id@,
            y.provider_station_id@,
        ) ==> i < j,
{
    lemma_fit_of_three(x.name@, x.province@, x.city@, query);
    lemma_fit_of_three(y.name@, y.province@, y.city@, query);
    let a = station_key(x);
    let b = station_key(y);
    if a != b {
        let k = lemma_first_difference(a, b);
        if text::text_le(a[k], b[k]) {
            lemma_ranked_apart(all, query, i, j);
        }
    }
}

proof fn lemma_first_difference(a: Seq<Seq<char>>, b: Seq<Seq<char>>) -> (k: int)
    requires
        a.len() == b.len(),
        a != b,
    ensures
        0 <= k < a.len(),
        a[k] != b[k],
        forall|m: int| 0 <= m < k ==> #[trigger] a[m] == b[m],
        text::text_le(a[k], b[k]) ==> !text::keys_le(b, a),
{
    let k = lemma_differ_from(a, b, 0);
    assert(a.take(k) =~= b.take(k));
    text::keys_are_ordered_by_their_first_difference(b, a, k);
    if text::text_le(a[k], b[k]) && text::text_le(b[k], a[k]) {
        text::text_le_antisymmetric(a[k], b[k]);
    }
    k
}

proof fn lemma_differ_from(a: Seq<Seq<char>>, b: Seq<Seq<char>>, i: int) -> (k: int)
    requires
        0 <= i <= a.len(),
        a.len() == b.len(),
        a != b,
        forall|m: int| 0 <= m < i ==> #[trigger] a[m] == b[m],
    ensures
        0 <= k < a.len(),
        a[k] != b[k],
        forall|m: int| 0 <= m < k ==> #[trigger] a[m] == b[m],
    decreases a.len() - i,
{
    if i == a.len() {
        assert(a =~= b);
        0
    } else if a[i] != b[i] {
        i
    } else {
        lemma_differ_from(a, b, i + 1)
    }
}

/// Of two cities that fit the query alike, the one stands first whose province comes first;
/// of the same province the one whose own name does.
pub proof fn cities_that_fit_alike_are_sorted(
    all: Seq<SearchCandidate>,
    query: Seq<char>,
    i: int,
    j: int,
    x: ProviderCity,
    y: ProviderCity,
)
    requires
        0 <= i < best_first(all, query).len(),
        0 <= j < best_first(all, query).len(),
        best_first(all, query)[i] == SearchCandidate::City(x),
        best_first(all, query)[j] == SearchCandidate::City(y),
        x.city@ == query || x.province@ == query || station::canonical_name(x.province@, x.city@)
            == query <==> y.city@ == query || y.province@ == query || station::canonical_name(
            y.province@,
            y.city@,
        ) == query,
        query.is_prefix_of(x.city@) || query.is_prefix_of(x.province@) || query.is_prefix_of(
            station::canonical_name(x.province@, x.city@),
        ) <==> query.is_prefix_of(y.city@) || query.is_prefix_of(y.province@)
            || query.is_prefix_of(station::canonical_name(y.province@, y.city@)),
    ensures
        x.province@ != y.province@ && text::text_le(x.province@, y.province@) ==> i < j,
        x.province@ == y.province@ && x.city@ != y.city@ && text::text_le(x.city@, y.city@) ==> i
            < j,
{
    lemma_fit_of_three(
        x.city@,
        x.province@,
        station::canonical_name(x.province@, x.city@),
        query,
    );
    lemma_fit_of_three(
        y.city@,
        y.province@,
        station::canonical_name(y.province@, y.city@),
        query,
    );
    let a = sort_key(SearchCandidate::City(x));
    let b = sort_key(SearchCandidate::City(y));
    assert(a[0] == x.province@ && a[1] == x.city@ && b[0] == y.province@ && b[1] == y.city@);
    if a != b {
        let k = lemma_first_difference(a, b);
        if text::text_le(a[k], b[k]) {
            lemma_ranked_apart(all, query, i, j);
        }
    }
}

/// Of two provinces that fit the query alike, the one stands first whose name comes first.
pub proof fn provinces_that_fit_alike_are_sorted(
    all: Seq<SearchCandidate>,
    query: Seq<char>,
    i: int,
    j: int,
    x: ProviderProvince,
    y: ProviderProvince,
)
    requires
        0 <= i < best_first(all, query).len(),
        0 <= j < best_first(all, query).len(),
        best_first(all, query)[i] == SearchCandidate::Province(x),
        best_first(all, query)[j] == SearchCandidate::Province(y),
        x.name@ == query <==> y.name@ == query,
        query.is_prefix_of(x.name@) <==> query.is_prefix_of(y.name@),
        x.name@ != y.name@,
        text::text_le(x.name@, y.name@),
    ensures
        i < j,
{
    lemma_fit_of_one(x.name@, query);
    lemma_fit_of_one(y.name@, query);
    let a = sort_key(SearchCandidate::Province(x));
    let b = sort_key(SearchCandidate::Province(y));
    assert(a[0] == x.name@ && b[0] == y.name@);
    let k = lemma_first_difference(a, b);
    lemma_ranked_apart(all, query, i, j);
}

/// No two stations in the answer have one identifier, no two cities are one, and no two
/// provinces have one name.
pub proof fn answers_differ(all: Seq<SearchCandidate>, query: Seq<char>, i: int, j: int)
    requires
        0 <= i < j < best_first(all, query).len(),
    ensures
        match (best_first(all, query)[i], best_first(all, query)[j]) {
            (SearchCandidate::Station(x), SearchCandidate::Station(y)) => x.unified_uuid@
                != y.unified_uuid@,
            (SearchCandidate::City(x), SearchCandidate::City(y)) => x.province@ != y.province@
                || x.city@ != y.city@,
            (SearchCandidate::Province(x), SearchCandidate::Province(y)) => x.name@ != y.name@,
            _ => true,
        },
{
    nothing_is_found_twice(all, query, i, j);
}

proof fn lemma_found_cities(cities: Seq<ProviderCity>, n: nat, query: Seq<char>)
    requires
        n <= cities.len(),
    ensures
        forall|c: ProviderCity| #[trigger]
            found_cities(cities, n, query).contains(c) <==> exists|k: int|
                0 <= k < n && #[trigger] cities[k] == c && city_found(c, query),
    decreases n,
{
    let after = found_cities(cities, n, query);
    if n > 0 {
        let before = found_cities(cities, (n - 1) as nat, query);
        lemma_found_cities(cities, (n - 1) as nat, query);
        assert forall|c: ProviderCity| #[trigger] after.contains(c) <==> exists|k: int|
            0 <= k < n && #[trigger] cities[k] == c && city_found(c, query) by {
            if before.contains(c) {
                let m = choose|m: int| 0 <= m < before.len() && before[m] == c;
                assert(after[m] == c);
            }
            if after.contains(c) && !before.contains(c) {
                let m = choose|m: int| 0 <= m < after.len() && after[m] == c;
                if m < before.len() {
                    assert(before[m] == c);
                }
                assert(cities[n - 1] == c);
            }
            if cities[n - 1] == c && city_found(c, query) {
                assert(after[before.len() as int] == c);
            }
        }
    }
}

proof fn lemma_found_provinces(provinces: Seq<ProviderProvince>, n: nat, query: Seq<char>)
    requires
        n <= provinces.len(),
    ensures
        forall|p: ProviderProvince| #[trigger]
            found_provinces(provinces, n, query).contains(p) <==> exists|k: int|
                0 <= k < n && #[trigger] provinces[k] == p && text::occurs(p.name@, query),
    decreases n,
{
    let after = found_provinces(provinces, n, query);
    if n > 0 {
        let before = found_provinces(provinces, (n - 1) as nat, query);
        lemma_found_provinces(provinces, (n - 1) as nat, query);
        assert forall|p: ProviderProvince| #[trigger] after.contains(p) <==> exists|k: int|
            0 <= k < n && #[trigger] provinces[k] == p && text::occurs(p.name@, query) by {
            if before.contains(p) {
                let m = choose|m: int| 0 <= m < before.len() && before[m] == p;
                assert(after[m] == p);
            }
            if after.contains(p) && !before.contains(p) {
                let m = choose|m: int| 0 <= m < after.len() && after[m] == p;
                if m < before.len() {
                    assert(before[m] == p);
                }
                assert(provinces[n - 1] == p);
            }
            if provinces[n - 1] == p && text::occurs(p.name@, query) {
                assert(after[before.len() as int] == p);
            }
        }
    }
}

/// A city of the catalog with the query in its name, its province or its canonical name is
/// in the answer, and so is its station.
pub proof fn cities_that_hold_the_query_are_found<F: Fn(&str) -> String>(
    all: Seq<SearchCandidate>,
    cities: Seq<ProviderCity>,
    provinces: Seq<ProviderProvince>,
    query: Seq<char>,
    provider: Seq<char>,
    uuid_of: F,
    k: int,
)
    requires
        gathered(
            all,
            found_cities(cities, cities.len(), query),
            found_provinces(provinces, provinces.len(), query),
            provider,
            uuid_of,
        ),
        0 <= k < cities.len(),
        text::occurs(cities[k].city@, query) || text::occurs(cities[k].province@, query)
            || text::occurs(station::canonical_name(cities[k].province@, cities[k].city@), query),
    ensures
        exists|i: int|
            0 <= i < best_first(all, query).len() && (#[trigger] best_first(all, query)[i] matches
                SearchCandidate::City(c) && c.province@ == cities[k].province@ && c.city@
                == cities[k].city@),
        exists|i: int|
            0 <= i < best_first(all, query).len() && (#[trigger] best_first(all, query)[i] matches
                SearchCandidate::Station(s) && station::identified(
                uuid_of,
                station::canonical_name(cities[k].province@, cities[k].city@),
                s.unified_uuid@,
            )),
{
    let found = found_cities(cities, cities.len(), query);
    lemma_found_cities(cities, cities.len(), query);
    assert(city_found(cities[k], query));
    assert(found.contains(cities[k]));
    let m = choose|m: int| 0 <= m < found.len() && found[m] == cities[k];
    assert(pair_at(all, 2 * m, found[m], provider, uuid_of));
    nothing_is_lost(all, query, 2 * m);
    nothing_is_lost(all, query, 2 * m + 1);
    let r = best_first(all, query);
    let a = choose|a: int| 0 <= a < r.len() && identity(#[trigger] r[a]) == identity(all[2 * m]);
    let b = choose|b: int|
        0 <= b < r.len() && identity(#[trigger] r[b]) == identity(all[2 * m + 1]);
    assert(r[b] is City);
    assert(r[a] is Station);
}

/// A province of the catalog with the query in its name is in the answer.
pub proof fn provinces_that_hold_the_query_are_found<F: Fn(&str) -> String>(
    all: Seq<SearchCandidate>,
    cities: Seq<ProviderCity>,
    provinces: Seq<ProviderProvince>,
    query: Seq<char>,
    provider: Seq<char>,
    uuid_of: F,
    k: int,
)
    requires
        gathered(
            all,
            found_cities(cities, cities.len(), query),
            found_provinces(provinces, provinces.len(), query),
            provider,
            uuid_of,
        ),
        0 <= k < provinces.len(),
        text::occurs(provinces[k].name@, query),
    ensures
        exists|i: int|
            0 <= i < best_first(all, query).len() && (#[trigger] best_first(all, query)[i] matches
                SearchCandidate::Province(p) && p.name@ == provinces[k].name@),
{
    let found = found_provinces(provinces, provinces.len(), query);
    let n = found_cities(cities, cities.len(), query).len();
    lemma_found_provinces(provinces, provinces.len(), query);
    assert(found.contains(provinces[k]));
    let m = choose|m: int| 0 <= m < found.len() && found[m] == provinces[k];
    assert(all[2 * n + m] == SearchCandidate::Province(found[m]));
    nothing_is_lost(all, query, 2 * n + m);
    let r = best_first(all, query);
    let a = choose|a: int| 0 <= a < r.len() && identity(#[trigger] r[a]) == identity(all[2 * n + m]);
    assert(r[a] is Province);
}

/// What the answer holds is of the catalog and holds the query: a city or a province of
/// it, or the station of such a city.
pub proof fn answers_hold_the_query<F: Fn(&str) -> String>(
    all: Seq<SearchCandidate>,
    cities: Seq<ProviderCity>,
    provinces: Seq<ProviderProvince>,
    query: Seq<char>,
    provider: Seq<char>,
    uuid_of: F,
    i: int,
)
    requires
        gathered(
            all,
            found_cities(cities, cities.len(), query),
            found_provinces(provinces, provinces.len(), query),
            provider,
            uuid_of,
        ),
        0 <= i < best_first(all, query).len(),
    ensures
        match best_first(all, query)[i] {
            SearchCandidate::Province(p) => provinces.contains(p) && text::occurs(p.name@, query),
            SearchCandidate::City(c) => cities.contains(c) && (text::occurs(c.city@, query)
                || text::occurs(c.province@, query) || text::occurs(
                station::canonical_name(c.province@, c.city@),
                query,
            )),
            SearchCandidate::Station(s) => exists|k: int|
                {
                    &&& 0 <= k < cities.len()
                    &&& s.name@ == station::canonical_name(
                        (#[trigger] cities[k]).province@,
                        cities[k].city@,
                    )
                    &&& s.province@ == cities[k].province@
                    &&& s.city@ == cities[k].city@
                    &&& s.provider_name@ == provider
                    &&& station::identified(uuid_of, s.name@, s.unified_uuid@)
                    &&& text::occurs(cities[k].city@, query) || text::occurs(
                        cities[k].province@,
                        query,
                    ) || text::occurs(s.name@, query)
                },
        },
{
    let found = found_cities(cities, cities.len(), query);
    let named = found_provinces(provinces, provinces.len(), query);
    lemma_found_cities(cities, cities.len(), query);
    lemma_found_provinces(provinces, provinces.len(), query);
    nothing_is_made_up(all, query, i);
    let c = best_first(all, query)[i];
    let m = choose|m: int| 0 <= m < all.len() && all[m] == c;
    if m < 2 * found.len() {
        let h = m / 2;
        assert(pair_at(all, 2 * h, found[h], provider, uuid_of));
        assert(found.contains(found[h]));
        let k = choose|k: int|
            0 <= k < cities.len() && #[trigger] cities[k] == found[h] && city_found(
                found[h],
                query,
            );
        assert(m == 2 * h || m == 2 * h + 1);
        assert(cities.contains(found[h]));
    } else {
        let h = m - 2 * found.len();
        assert(all[2 * found.len() + h] == SearchCandidate::Province(named[h]));
        assert(named.contains(named[h]));
    }
}

/// The lists of an answer part a page: each candidate of the page stands in the list of its
/// kind, behind as many as there are of that kind before it, and nothing else is listed.
pub proof fn lists_part_a_page(page: Seq<SearchCandidate>, n: nat, k: int)
    requires
        0 <= k < n <= page.len(),
    ensures
        stations_in(page, n).len() + cities_in(page, n).len() + provinces_in(page, n).len() == n,
        match page[k] {
            SearchCandidate::Station(s) => stations_in(page, k as nat).len() < stations_in(
                page,
                n,
            ).len() && stations_in(page, n)[stations_in(page, k as nat).len() as int] == s,
            SearchCandidate::City(c) => cities_in(page, k as nat).len() < cities_in(page, n).len()
                && cities_in(page, n)[cities_in(page, k as nat).len() as int].province
                == c.province && cities_in(page, n)[cities_in(page, k as nat).len() as int].city
                == c.city,
            SearchCandidate::Province(p) => provinces_in(page, k as nat).len() < provinces_in(
                page,
                n,
            ).len() && provinces_in(page, n)[provinces_in(page, k as nat).len() as int].name
                == p.name,
        },
    decreases n,
{
    if k < n - 1 {
        lists_part_a_page(page, (n - 1) as nat, k);
    } else if k > 0 {
        lists_part_a_page(page, k as nat, k - 1);
    }
}

/// A station of a name lies in a province whose name is the part before the first dash, with
/// or without what tells provinces, or holds that part, or starts the name. Every such
/// province is searched and no other.
pub proof fn provinces_are_targeted(
    provinces: Seq<ProviderProvince>,
    n: nat,
    name: Seq<char>,
    p: ProviderProvince,
)
    requires
        n <= provinces.len(),
    ensures
        holding(provinces, n, name).contains(p) <==> exists|k: int|
            0 <= k < n && #[trigger] provinces[k] == p && (p.name@ == hint_in(name)
                || station::short_name(p.name@) == hint_in(name) || text::occurs(
                p.name@,
                hint_in(name),
            ) || p.name@.is_prefix_of(name)),
    decreases n,
{
    text::occurrences_are_parts(name, p.name@, name, name);
    let after = holding(provinces, n, name);
    if n > 0 {
        let before = holding(provinces, (n - 1) as nat, name);
        provinces_are_targeted(provinces, (n - 1) as nat, name, p);
        if before.contains(p) {
            let m = choose|m: int| 0 <= m < before.len() && before[m] == p;
            assert(after[m] == p);
        }
        if after.contains(p) && !before.contains(p) {
            let m = choose|m: int| 0 <= m < after.len() && after[m] == p;
            if m < before.len() {
                assert(before[m] == p);
            }
            assert(provinces[n - 1] == p);
        }
        if provinces[n - 1] == p && may_hold(p, hint_in(name), name) {
            assert(after[before.len() as int] == p);
        }
    }
}

/// The part of a name that tells its province ends before the first dash, and is the whole
/// name where there is none.
pub proof fn hints_end_at_a_dash(a: Seq<char>, b: Seq<char>)
    requires
        !a.contains('-'),
    ensures
        hint_in(a) == a,
        hint_in(a + "-"@ + b) == a,
    decreases b.len(),
{
    reveal_strlit("-");
    let s = a + "-"@ + b;
    lemma_one_piece(a);
    assert((a + "-"@).drop_last() =~= a);
    assert((a + "-"@).last() == '-');
    if b.len() == 0 {
        assert(s =~= a + "-"@);
    } else {
        assert(s.drop_last() =~= a + "-"@ + b.drop_last());
        hints_end_at_a_dash(a, b.drop_last());
        let rest = text::pieces(s.drop_last(), '-');
        text::pieces_are_some(s.drop_last(), '-');
        lemma_more_pieces(a, b.drop_last());
    }
}

proof fn lemma_one_piece(a: Seq<char>)
    requires
        !a.contains('-'),
    ensures
        text::pieces(a, '-') == seq![a],
    decreases a.len(),
{
    if a.len() > 0 {
        let t = a.drop_last();
        assert forall|i: int| 0 <= i < t.len() implies t[i] != '-' by {
            assert(a[i] == t[i]);
        }
        assert(a.last() == a[a.len() - 1]);
        lemma_one_piece(t);
        assert(text::pieces(a, '-') =~= seq![a]) by {
            assert(t.push(a.last()) =~= a);
        }
    } else {
        assert(a =~= Seq::<char>::empty());
        assert(text::pieces(a, '-') =~= seq![a]);
    }
}

proof fn lemma_more_pieces(a: Seq<char>, b: Seq<char>)
    ensures
        text::pieces(a + "-"@ + b, '-').len() >= 2,
    decreases b.len(),
{
    reveal_strlit("-");
    let s = a + "-"@ + b;
    if b.len() == 0 {
        assert(s.last() == '-');
        text::pieces_are_some(s.drop_last(), '-');
    } else {
        assert(s.drop_last() =~= a + "-"@ + b.drop_last());
        lemma_more_pieces(a, b.drop_last());
    }
}

/// A name is resolved exactly where a city bears it as its canonical name. Of several the
/// one is taken whose province comes first, then whose own name does, then whose code does.
pub proof fn names_are_resolved_to_the_first(
    cities: Seq<ProviderCity>,
    name: Seq<char>,
    j: int,
)
    ensures
        0 <= j < cities.len() && station::canonical_name(cities[j].province@, cities[j].city@)
            == name ==> (least_bearer(cities, cities.len(), name) matches Some(i) && 0 <= i
            < cities.len() && station::canonical_name(cities[i].province@, cities[i].city@)
            == name && {
            let x = cities[i];
            let y = cities[j];
            &&& x.province@ == y.province@ || text::text_le(x.province@, y.province@)
            &&& x.province@ == y.province@ ==> x.city@ == y.city@ || text::text_le(
                x.city@,
                y.city@,
            )
            &&& x.province@ == y.province@ && x.city@ == y.city@ ==> text::text_le(
                x.provider_code@,
                y.provider_code@,
            )
        }),
        (forall|k: int|
            0 <= k < cities.len() ==> station::canonical_name(
                (#[trigger] cities[k]).province@,
                cities[k].city@,
            ) != name) ==> least_bearer(cities, cities.len(), name) is None,
{
    lemma_least_bearer_in_range(cities, cities.len(), name);
    if 0 <= j < cities.len() && bears(cities[j], name) {
        found_station_comes_first(cities, cities.len(), name, j);
        let i = least_bearer(cities, cities.len(), name).unwrap();
        let a = bearer_key(cities[i]);
        let b = bearer_key(cities[j]);
        text::text_le_total(a[2], a[2]);
        if a != b {
            let k = lemma_differ_from(a, b, 0);
            assert(a.take(k) =~= b.take(k));
            text::keys_are_ordered_by_their_first_difference(a, b, k);
        } else {
            assert(a[2] == b[2]);
        }
        assert(a[0] == cities[i].province@ && b[0] == cities[j].province@);
        assert(a[1] == cities[i].city@ && b[1] == cities[j].city@);
        assert(a[2] == cities[i].provider_code@ && b[2] == cities[j].provider_code@);
    }
}

} // verus!
