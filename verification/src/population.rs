//! Putting a catalog together from the cities of many provinces.

use vstd::prelude::*;
use crate::catalog::{
    self,
    catalog_cache_is_fresh,
    flatten_city_scopes,
    sort_provider_cities,
    validate_population_city_codes,
    CatalogRows,
    CityScopes,
};
use crate::limits::MAX_CONCURRENT_CATALOG_FETCHES;
use crate::provider::{ProviderCity, ProviderProvince};
use crate::sorting;
use crate::text;
use crate::textmap::TextMap;

verus! {

/// The provinces and the cities of a provider.
#[derive(Debug)]
pub struct ProviderCatalog {
    pub provinces: Vec<ProviderProvince>,
    pub cities: Vec<ProviderCity>,
}

/// The codes of the provinces.
pub fn province_codes(provinces: &Vec<ProviderProvince>) -> (r: Vec<String>)
    ensures
        text::texts(r@) == catalog::codes(provinces@),
{
    let mut codes: Vec<String> = Vec::new();
    let mut i: usize = 0;
    while i < provinces.len()
        invariant
            i <= provinces@.len(),
            codes@.len() == i,
            forall|j: int| 0 <= j < i ==> (#[trigger] codes@[j])@ == provinces@[j].provider_code@,
        decreases provinces@.len() - i,
    {
        codes.push(provinces[i].provider_code.clone());
        i = i + 1;
    }
    assert(text::texts(codes@) =~= catalog::codes(provinces@));
    codes
}

/// Kept cities serve.
pub open spec fn serves(rows: CatalogRows<ProviderCity>, now: i64, ttl_seconds: u64) -> bool {
    catalog::rows_fresh(rows.fetched_at_unix_ms as int, now as int, ttl_seconds as int)
}

/// What the first `n` provinces have: the kept cities that serve, the codes whose cities
/// are to be asked for, and the kept cities that nobody asked for.
pub open spec fn split(
    expected: Seq<Seq<char>>,
    n: nat,
    cached: Map<Seq<char>, CatalogRows<ProviderCity>>,
    now: i64,
    ttl_seconds: u64,
) -> (
    Map<Seq<char>, Vec<ProviderCity>>,
    Seq<Seq<char>>,
    Map<Seq<char>, CatalogRows<ProviderCity>>,
)
    decreases n,
{
    if n == 0 {
        (Map::empty(), Seq::empty(), cached)
    } else {
        let (fresh, pending, left) = split(expected, (n - 1) as nat, cached, now, ttl_seconds);
        let code = expected[n - 1];
        if left.contains_key(code) && serves(left[code], now, ttl_seconds) {
            (fresh.insert(code, left[code].items), pending, left.remove(code))
        } else {
            (fresh, pending.push(code), left.remove(code))
        }
    }
}

/// Parts the expected provinces into those whose kept cities serve and those whose cities
/// are to be asked for.
pub fn split_city_scopes(
    expected_codes: &Vec<String>,
    cached: TextMap<CatalogRows<ProviderCity>>,
    now_unix_ms: i64,
    ttl_seconds: u64,
) -> (r: (CityScopes, Vec<String>))
    requires
        cached.wf(),
    ensures
        r.0.wf(),
        ({
            let (fresh, pending, _) = split(
                text::texts(expected_codes@),
                expected_codes@.len(),
                cached@,
                now_unix_ms,
                ttl_seconds,
            );
            r.0@ == fresh && text::texts(r.1@) == pending
        }),
{
    let ghost expected = text::texts(expected_codes@);
    let ghost all = cached@;
    let mut left = cached;
    let mut fresh: CityScopes = TextMap::new();
    let mut pending: Vec<String> = Vec::new();
    assert(text::texts(pending@) =~= Seq::empty());
    let mut i: usize = 0;
    while i < expected_codes.len()
        invariant
            i <= expected_codes@.len(),
            expected == text::texts(expected_codes@),
            all == cached@,
            left.wf(),
            fresh.wf(),
            (fresh@, text::texts(pending@), left@) == split(
                expected,
                i as nat,
                all,
                now_unix_ms,
                ttl_seconds,
            ),
        decreases expected_codes@.len() - i,
    {
        let code = expected_codes[i].as_str();
        assert(expected[i as int] == code@);
        let ghost before = pending@;
        match left.take(code) {
            Some(rows) => {
                if catalog_cache_is_fresh(rows.fetched_at_unix_ms, now_unix_ms, ttl_seconds) {
                    fresh.set(code, rows.items);
                } else {
                    pending.push(code.to_owned());
                    assert(text::texts(pending@) =~= text::texts(before).push(code@));
                }
            },
            None => {
                pending.push(code.to_owned());
                assert(text::texts(pending@) =~= text::texts(before).push(code@));
            },
        }
        i = i + 1;
    }
    (fresh, pending)
}

/// Each of the expected provinces has kept cities that serve, or is asked for.
pub proof fn no_province_is_forgotten(
    expected: Seq<Seq<char>>,
    n: nat,
    cached: Map<Seq<char>, CatalogRows<ProviderCity>>,
    now: i64,
    ttl_seconds: u64,
    i: int,
)
    requires
        0 <= i < n <= expected.len(),
    ensures
        ({
            let (fresh, pending, _) = split(expected, n, cached, now, ttl_seconds);
            fresh.contains_key(expected[i]) || pending.contains(expected[i])
        }),
    decreases n,
{
    let (fresh, pending, left) = split(expected, (n - 1) as nat, cached, now, ttl_seconds);
    if i < n - 1 {
        no_province_is_forgotten(expected, (n - 1) as nat, cached, now, ttl_seconds, i);
        if pending.contains(expected[i]) {
            let j = choose|j: int| 0 <= j < pending.len() && pending[j] == expected[i];
            assert(pending.push(expected[n - 1])[j] == expected[i]);
        }
    } else {
        assert(pending.push(expected[i])[pending.len() as int] == expected[i]);
    }
}

/// Only cities whose time is not up are taken from what was kept.
pub proof fn taken_cities_serve(
    expected: Seq<Seq<char>>,
    n: nat,
    cached: Map<Seq<char>, CatalogRows<ProviderCity>>,
    now: i64,
    ttl_seconds: u64,
    code: Seq<char>,
)
    requires
        n <= expected.len(),
        split(expected, n, cached, now, ttl_seconds).0.contains_key(code),
    ensures
        cached.contains_key(code),
        serves(cached[code], now, ttl_seconds),
        split(expected, n, cached, now, ttl_seconds).0[code] == cached[code].items,
    decreases n,
{
    if n > 0 {
        let (fresh, pending, left) = split(expected, (n - 1) as nat, cached, now, ttl_seconds);
        lemma_left_is_kept(expected, (n - 1) as nat, cached, now, ttl_seconds);
        if fresh.contains_key(code) {
            taken_cities_serve(expected, (n - 1) as nat, cached, now, ttl_seconds, code);
        }
    }
}

proof fn lemma_left_is_kept(
    expected: Seq<Seq<char>>,
    n: nat,
    cached: Map<Seq<char>, CatalogRows<ProviderCity>>,
    now: i64,
    ttl_seconds: u64,
)
    requires
        n <= expected.len(),
    ensures
        forall|code: Seq<char>| #[trigger]
            split(expected, n, cached, now, ttl_seconds).2.contains_key(code)
                ==> cached.contains_key(code) && split(
                expected,
                n,
                cached,
                now,
                ttl_seconds,
            ).2[code] == cached[code],
    decreases n,
{
    if n > 0 {
        lemma_left_is_kept(expected, (n - 1) as nat, cached, now, ttl_seconds);
        let before = split(expected, (n - 1) as nat, cached, now, ttl_seconds).2;
        let left = split(expected, n, cached, now, ttl_seconds).2;
        assert(left == before.remove(expected[n - 1]));
        assert forall|code: Seq<char>| #[trigger] left.contains_key(code) implies
            cached.contains_key(code) && left[code] == cached[code] by {
            assert(before.contains_key(code));
        }
    }
}

/// Why cities do not make up a catalog, if they do not.
pub open spec fn catalog_fault(
    expected: Seq<Seq<char>>,
    scopes: Map<Seq<char>, Vec<ProviderCity>>,
) -> Option<Seq<char>> {
    match catalog::flattened(expected, expected.len(), scopes) {
        Err(code) => Some(catalog::unpopulated(code)),
        Ok((cities, _)) => match catalog::repeated(cities, cities.len()) {
            Some(i) => Some(
                catalog::repeated_text(
                    cities[catalog::code_at(cities, i as nat, cities[i].provider_code@)->0],
                    cities[i],
                ),
            ),
            None => None,
        },
    }
}

/// The catalog of the provinces, from the cities of each of them.
pub fn assemble_catalog(provinces: Vec<ProviderProvince>, scopes: CityScopes) -> (r: Result<
    ProviderCatalog,
    String,
>)
    requires
        scopes.wf(),
    ensures
        ({
            let expected = catalog::codes(provinces@);
            match catalog_fault(expected, scopes@) {
                Some(m) => r matches Err(e) && e@ == m,
                None => {
                    &&& r matches Ok(c)
                    &&& c.provinces == provinces
                    &&& catalog::flattened(expected, expected.len(), scopes@) matches Ok((cities, _))
                    &&& c.cities@ == cities
                },
            }
        }),
{
    let expected = province_codes(&provinces);
    assert(text::texts(expected@).len() == expected@.len());
    let cities = match flatten_city_scopes(&expected, scopes) {
        Ok(cities) => cities,
        Err(m) => {
            return Err(m);
        },
    };
    match validate_population_city_codes(&cities) {
        Ok(_) => Ok(ProviderCatalog { provinces, cities }),
        Err(m) => Err(m),
    }
}

/// The cities that were loaded join those that were kept; a scope that was loaded takes
/// the place of a kept one.
pub fn join_scopes(kept: CityScopes, loaded: CityScopes) -> (r: CityScopes)
    requires
        kept.wf(),
        loaded.wf(),
    ensures
        r.wf(),
        r@ == kept@.union_prefer_right(loaded@),
{
    let ghost a = kept@;
    let ghost b = loaded@;
    let mut all = kept;
    let mut left = loaded;
    while left.len() > 0
        invariant
            all.wf(),
            left.wf(),
            all@.union_prefer_right(left@) == a.union_prefer_right(b),
        decreases left.size(),
    {
        proof {
            left.keys_are_listed();
        }
        let code = left.at(0).0.to_owned();
        let ghost l = left@;
        let ghost before = all@;
        match left.take(code.as_str()) {
            Some(cities) => {
                all.set(code.as_str(), cities);
                assert(all@.union_prefer_right(left@) =~= before.union_prefer_right(l));
            },
            None => {
                assert(false);
            },
        }
    }
    proof {
        left.keys_are_listed();
        assert(left@ =~= Map::empty());
        assert(all@.union_prefer_right(left@) =~= all@);
    }
    all
}

/// Why the cities of the provinces are not all there. A search in one province is answered
/// with the message alone; whoever shares an asking for all of them is told the whole.
#[derive(Debug, PartialEq, Eq)]
pub struct ScopeFault {
    pub message: String,
    pub cause: String,
}

impl ScopeFault {
    /// The message with what it came from.
    pub fn whole(&self) -> (r: String)
        ensures
            r@ == text::in_context(self.message@, self.cause@),
    {
        text::with_context(self.message.as_str(), self.cause.as_str())
    }
}

/// Cities are asked for, a few provinces at a time.
#[derive(Debug)]
pub struct ScopeLoader {
    pending: Vec<String>,
    active: usize,
    loaded: CityScopes,
}

/// Where the asking for cities stands.
pub struct LoaderView {
    /// The codes that are still to be asked for, in order.
    pub pending: Seq<Seq<char>>,
    /// How many are being asked for.
    pub active: nat,
    /// The cities that came.
    pub loaded: Map<Seq<char>, Vec<ProviderCity>>,
}

impl View for ScopeLoader {
    type V = LoaderView;

    closed spec fn view(&self) -> LoaderView {
        LoaderView {
            pending: text::texts(self.pending@),
            active: self.active as nat,
            loaded: self.loaded@,
        }
    }
}

impl ScopeLoader {
    /// Each province has its cities once, and no more are asked for than may be.
    pub closed spec fn wf(self) -> bool {
        self.loaded.wf() && self.active <= MAX_CONCURRENT_CATALOG_FETCHES
    }

    /// There is never more under way than may be.
    pub proof fn stays_within_limit(self)
        requires
            self.wf(),
        ensures
            self@.active <= MAX_CONCURRENT_CATALOG_FETCHES,
    {
    }

    /// The start: the codes to ask for at once.
    pub fn start(codes: Vec<String>) -> (r: (ScopeLoader, Vec<String>))
        ensures
            r.0.wf(),
            ({
                let all = text::texts(codes@);
                let first = if all.len() <= MAX_CONCURRENT_CATALOG_FETCHES {
                    all.len() as int
                } else {
                    MAX_CONCURRENT_CATALOG_FETCHES as int
                };
                &&& text::texts(r.1@) == all.take(first)
                &&& r.0@.pending == all.skip(first)
                &&& r.0@.active == first
                &&& r.0@.loaded == Map::<Seq<char>, Vec<ProviderCity>>::empty()
            }),
    {
        let ghost all = text::texts(codes@);
        let mut pending = codes;
        let mut first: Vec<String> = Vec::new();
        assert(text::texts(first@) =~= all.take(0));
        assert(text::texts(pending@) =~= all.skip(0));
        while first.len() < MAX_CONCURRENT_CATALOG_FETCHES && pending.len() > 0
            invariant
                all == text::texts(codes@),
                first@.len() <= MAX_CONCURRENT_CATALOG_FETCHES,
                first@.len() + pending@.len() == all.len(),
                text::texts(first@) == all.take(first@.len() as int),
                text::texts(pending@) == all.skip(first@.len() as int),
            decreases pending@.len(),
        {
            let ghost n = first@.len() as int;
            let ghost waiting = pending@;
            let ghost taken = first@;
            let code = pending.remove(0);
            assert(text::texts(waiting)[0] == code@);
            assert(all.skip(n)[0] == all[n]);
            first.push(code);
            assert(text::texts(first@) =~= text::texts(taken).push(all[n]));
            assert(text::texts(first@) =~= all.take(n + 1));
            assert(text::texts(pending@) =~= text::texts(waiting).skip(1));
            assert(text::texts(pending@) =~= all.skip(n + 1));
        }
        let active = first.len();
        assert(text::texts(first@).len() == first@.len());
        (ScopeLoader { pending, active, loaded: TextMap::new() }, first)
    }

    /// The cities of a province came, or did not. Gives the next code to ask for, if one
    /// is left, or the failure that ends the asking.
    pub fn scope_loaded(&mut self, code: &str, cities: Result<Vec<ProviderCity>, String>) -> (r:
        Result<Option<String>, ScopeFault>)
        requires
            old(self).wf(),
            old(self)@.active > 0,
        ensures
            final(self).wf(),
            match cities {
                Ok(cities) => {
                    let s = old(self)@;
                    &&& r matches Ok(next)
                    &&& text::opt_text(next) == if s.pending.len() > 0 {
                        Some(s.pending[0])
                    } else {
                        None
                    }
                    &&& final(self)@.pending == if s.pending.len() > 0 {
                        s.pending.skip(1)
                    } else {
                        s.pending
                    }
                    &&& final(self)@.active == if s.pending.len() > 0 {
                        s.active as int
                    } else {
                        s.active - 1
                    }
                    &&& final(self)@.loaded.contains_key(code@)
                    &&& sorting::sorted_from(final(self)@.loaded[code@]@, cities@)
                    &&& final(self)@.loaded == s.loaded.insert(code@, final(self)@.loaded[code@])
                },
                Err(m) => {
                    &&& r matches Err(e)
                    &&& e.message@ == "failed to populate provider city scope `"@ + code@ + "`"@
                    &&& e.cause == m
                    &&& final(self)@ == old(self)@
                },
            },
    {
        let cities = match cities {
            Ok(cities) => cities,
            Err(cause) => {
                let message = text::cat("failed to populate provider city scope `", code).concat(
                    "`",
                );
                return Err(ScopeFault { message, cause });
            },
        };
        let cities = sort_provider_cities(cities);
        self.loaded.set(code, cities);
        assert(text::texts(self.pending@).len() == self.pending@.len());
        if self.pending.len() > 0 {
            let ghost waiting = self.pending@;
            let next = self.pending.remove(0);
            assert(text::texts(waiting)[0] == next@);
            assert(text::texts(self.pending@) =~= text::texts(waiting).skip(1));
            Ok(Some(next))
        } else {
            self.active = self.active - 1;
            Ok(None)
        }
    }

    /// Whether nothing is being asked for any more.
    pub fn is_done(&self) -> (r: bool)
        ensures
            r == (self@.active == 0),
    {
        self.active == 0
    }

    /// The cities that came.
    pub fn into_scopes(self) -> (r: CityScopes)
        requires
            self.wf(),
        ensures
            r.wf(),
            r@ == self@.loaded,
    {
        self.loaded
    }
}

/// What is said of an asking that panicked or was cancelled.
pub fn population_task_failure(message: &str) -> (r: String)
    ensures
        r@ == "provider city population task failed: "@ + message@,
{
    text::cat("provider city population task failed: ", message)
}

/// Kept cities serve until the time that they serve has passed, to the millisecond.
pub proof fn kept_cities_serve_for_a_while(
    rows: CatalogRows<ProviderCity>,
    now: i64,
    ttl_seconds: u64,
)
    requires
        rows.fetched_at_unix_ms <= now,
        now - rows.fetched_at_unix_ms <= i64::MAX,
    ensures
        serves(rows, now, ttl_seconds) <==> now < rows.fetched_at_unix_ms + ttl_seconds * 1000,
{
    catalog::rows_serve_for_a_while(
        rows.fetched_at_unix_ms as int,
        now as int,
        ttl_seconds as int,
    );
}

/// A province whose kept cities serve is not asked for, and its cities are taken as they
/// were kept; one whose kept cities do not serve, or that has none, is asked for.
pub proof fn provinces_are_asked_for_where_needed(
    expected: Seq<Seq<char>>,
    n: nat,
    cached: Map<Seq<char>, CatalogRows<ProviderCity>>,
    now: i64,
    ttl_seconds: u64,
    i: int,
)
    requires
        expected.no_duplicates(),
        0 <= i < n <= expected.len(),
    ensures
        ({
            let (fresh, pending, _) = split(expected, n, cached, now, ttl_seconds);
            let serving = cached.contains_key(expected[i]) && serves(
                cached[expected[i]],
                now,
                ttl_seconds,
            );
            &&& fresh.contains_key(expected[i]) <==> serving
            &&& pending.contains(expected[i]) <==> !serving
            &&& serving ==> fresh[expected[i]] == cached[expected[i]].items
        }),
    decreases n,
{
    let m = (n - 1) as nat;
    let (fresh, pending, left) = split(expected, m, cached, now, ttl_seconds);
    let after = split(expected, n, cached, now, ttl_seconds).1;
    let code = expected[n - 1];
    lemma_split_before(expected, m, cached, now, ttl_seconds);
    if i < m {
        provinces_are_asked_for_where_needed(expected, m, cached, now, ttl_seconds, i);
        assert(expected[i] != code);
        if pending.contains(expected[i]) {
            let k = choose|k: int| 0 <= k < pending.len() && pending[k] == expected[i];
            assert(after[k] == expected[i]);
        }
        if after.contains(expected[i]) {
            let k = choose|k: int| 0 <= k < after.len() && after[k] == expected[i];
            assert(k < pending.len());
            assert(pending[k] == expected[i]);
        }
    } else {
        assert(!expected.take(m as int).contains(code)) by {
            if expected.take(m as int).contains(code) {
                let k = choose|k: int| 0 <= k < m && expected.take(m as int)[k] == code;
                assert(expected[k] == expected[n - 1]);
            }
        }
        assert(!fresh.contains_key(code));
        if after.contains(code) {
            let k = choose|k: int| 0 <= k < after.len() && after[k] == code;
            if k < pending.len() {
                assert(pending.contains(code));
            }
        }
        if after.len() > pending.len() {
            assert(after[pending.len() as int] == code);
        }
    }
}

proof fn lemma_split_before(
    expected: Seq<Seq<char>>,
    n: nat,
    cached: Map<Seq<char>, CatalogRows<ProviderCity>>,
    now: i64,
    ttl_seconds: u64,
)
    requires
        n <= expected.len(),
    ensures
        ({
            let (fresh, pending, left) = split(expected, n, cached, now, ttl_seconds);
            forall|code: Seq<char>|
                !expected.take(n as int).contains(code) ==> {
                    &&& !#[trigger] fresh.contains_key(code)
                    &&& !pending.contains(code)
                    &&& left.contains_key(code) <==> cached.contains_key(code)
                    &&& cached.contains_key(code) ==> left[code] == cached[code]
                }
        }),
    decreases n,
{
    if n > 0 {
        let m = (n - 1) as nat;
        lemma_split_before(expected, m, cached, now, ttl_seconds);
        let (fresh, pending, left) = split(expected, m, cached, now, ttl_seconds);
        let (fresh2, pending2, left2) = split(expected, n, cached, now, ttl_seconds);
        assert forall|code: Seq<char>| !expected.take(n as int).contains(code) implies {
            &&& !#[trigger] fresh2.contains_key(code)
            &&& !pending2.contains(code)
            &&& left2.contains_key(code) <==> cached.contains_key(code)
            &&& cached.contains_key(code) ==> left2[code] == cached[code]
        } by {
            assert(expected.take(n as int)[n - 1] == expected[n - 1]);
            assert(code != expected[n - 1]);
            if expected.take(m as int).contains(code) {
                let k = choose|k: int| 0 <= k < m && expected.take(m as int)[k] == code;
                assert(expected.take(n as int)[k] == code);
            }
            assert(!fresh.contains_key(code));
            if pending2.contains(code) {
                let k = choose|k: int| 0 <= k < pending2.len() && pending2[k] == code;
                assert(pending[k] == code);
            }
        }
    }
}

/// The provinces to ask for stand in their order.
pub proof fn provinces_are_asked_for_in_order(
    expected: Seq<Seq<char>>,
    n: nat,
    cached: Map<Seq<char>, CatalogRows<ProviderCity>>,
    now: i64,
    ttl_seconds: u64,
    a: int,
    b: int,
)
    requires
        n <= expected.len(),
        0 <= a < b < split(expected, n, cached, now, ttl_seconds).1.len(),
    ensures
        exists|i: int, j: int|
            0 <= i < j < n && #[trigger] expected[i] == split(
                expected,
                n,
                cached,
                now,
                ttl_seconds,
            ).1[a] && #[trigger] expected[j] == split(expected, n, cached, now, ttl_seconds).1[b],
    decreases n,
{
    let m = (n - 1) as nat;
    let before = split(expected, m, cached, now, ttl_seconds).1;
    let after = split(expected, n, cached, now, ttl_seconds).1;
    assert(after[a] == before[a]);
    if b < before.len() {
        assert(after[b] == before[b]);
        provinces_are_asked_for_in_order(expected, m, cached, now, ttl_seconds, a, b);
    } else {
        lemma_pending_is_expected(expected, m, cached, now, ttl_seconds, a);
        let i = choose|i: int| 0 <= i < m && #[trigger] expected[i] == before[a];
        assert(expected[i] == after[a]);
        assert(expected[n - 1] == after[b]);
    }
}

proof fn lemma_pending_is_expected(
    expected: Seq<Seq<char>>,
    n: nat,
    cached: Map<Seq<char>, CatalogRows<ProviderCity>>,
    now: i64,
    ttl_seconds: u64,
    a: int,
)
    requires
        n <= expected.len(),
        0 <= a < split(expected, n, cached, now, ttl_seconds).1.len(),
    ensures
        exists|i: int|
            0 <= i < n && #[trigger] expected[i] == split(
                expected,
                n,
                cached,
                now,
                ttl_seconds,
            ).1[a],
    decreases n,
{
    let m = (n - 1) as nat;
    let before = split(expected, m, cached, now, ttl_seconds).1;
    let after = split(expected, n, cached, now, ttl_seconds).1;
    if a < before.len() {
        assert(after[a] == before[a]);
        lemma_pending_is_expected(expected, m, cached, now, ttl_seconds, a);
    } else {
        assert(expected[n - 1] == after[a]);
    }
}

/// Cities make up a catalog exactly where every province has its cities and no two cities
/// of them all have one code.
pub proof fn catalogs_are_whole_and_unambiguous(
    expected: Seq<Seq<char>>,
    scopes: Map<Seq<char>, Vec<ProviderCity>>,
)
    requires
        expected.no_duplicates(),
    ensures
        (exists|i: int| 0 <= i < expected.len() && !scopes.contains_key(#[trigger] expected[i]))
            ==> catalog_fault(expected, scopes) is Some,
        (forall|i: int| 0 <= i < expected.len() ==> scopes.contains_key(#[trigger] expected[i]))
            ==> (catalog::flattened(expected, expected.len(), scopes) matches Ok((cities, _)) && (
        catalog_fault(expected, scopes) is None <==> forall|i: int, j: int|
            0 <= i < j < cities.len() ==> (#[trigger] cities[i]).provider_code@ != (
            #[trigger] cities[j]).provider_code@)),
{
    let n = expected.len();
    catalog::no_province_goes_without_cities(expected, n, scopes);
    if let Ok((cities, _)) = catalog::flattened(expected, n, scopes) {
        catalog::repeated_codes_are_found(cities, cities.len());
        assert forall|i: int| 0 <= i < n implies scopes.contains_key(#[trigger] expected[i]) by {
            catalog::cities_follow_their_provinces(expected, n, scopes, i);
        }
    }
}

} // verus!
