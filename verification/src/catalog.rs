//! The provider's catalog of provinces and cities: how long it serves, how it is
//! refreshed and put together, and how it is listed.

use vstd::prelude::*;
use crate::provider::{ProviderCity, ProviderProvince};
use crate::sorting::{self, Ranked};
use crate::text;
use crate::textmap::TextMap;

verus! {

/// A province as it is listed.
#[derive(Debug, PartialEq, Eq)]
pub struct Province {
    pub name: String,
}

/// A city as it is listed.
#[derive(Debug, PartialEq, Eq)]
pub struct City {
    pub province: String,
    pub city: String,
}

impl Clone for Province {
    fn clone(&self) -> (r: Self)
        ensures
            r == *self,
    {
        Province { name: self.name.clone() }
    }
}

impl Clone for City {
    fn clone(&self) -> (r: Self)
        ensures
            r == *self,
    {
        City { province: self.province.clone(), city: self.city.clone() }
    }
}

impl ProviderProvince {
    /// The province as it is listed.
    pub fn public_ref(&self) -> (r: Province)
        ensures
            r == (Province { name: self.name }),
    {
        Province { name: self.name.clone() }
    }
}

impl ProviderCity {
    /// The city as it is listed.
    pub fn public_ref(&self) -> (r: City)
        ensures
            r == (City { province: self.province, city: self.city }),
    {
        City { province: self.province.clone(), city: self.city.clone() }
    }
}

/// How old catalog rows are, in milliseconds: rows from the future are new.
pub open spec fn row_age(fetched_at_unix_ms: int, now_unix_ms: int) -> int {
    let age = now_unix_ms - fetched_at_unix_ms;
    if age < 0 {
        0
    } else if age > i64::MAX {
        i64::MAX as int
    } else {
        age
    }
}

/// Catalog rows serve until they are as old as the time they serve, and not at all where
/// that time is zero.
pub open spec fn rows_fresh(fetched_at_unix_ms: int, now_unix_ms: int, ttl_seconds: int) -> bool {
    ttl_seconds > 0 && row_age(fetched_at_unix_ms, now_unix_ms) < ttl_seconds * 1000
}

/// Whether catalog rows serve.
pub fn catalog_cache_is_fresh(fetched_at_unix_ms: i64, now_unix_ms: i64, ttl_seconds: u64) -> (r:
    bool)
    ensures
        r == rows_fresh(fetched_at_unix_ms as int, now_unix_ms as int, ttl_seconds as int),
{
    if ttl_seconds == 0 {
        return false;
    }
    let age: i128 = now_unix_ms as i128 - fetched_at_unix_ms as i128;
    let age: i128 = if age < 0 {
        0
    } else if age > i64::MAX as i128 {
        i64::MAX as i128
    } else {
        age
    };
    age < ttl_seconds as i128 * 1000
}

/// What a province is sorted by.
pub open spec fn province_key(p: ProviderProvince) -> Seq<Seq<char>> {
    seq![p.provider_code@]
}

/// What a city is sorted by.
pub open spec fn city_key(c: ProviderCity) -> Seq<Seq<char>> {
    seq![c.city@, c.provider_code@]
}

impl Ranked for ProviderProvince {
    open spec fn le(a: Self, b: Self) -> bool {
        text::keys_le(province_key(a), province_key(b))
    }

    proof fn le_total(a: Self, b: Self) {
        text::keys_le_total(province_key(a), province_key(b));
    }

    proof fn le_transitive(a: Self, b: Self, c: Self) {
        text::keys_le_transitive(province_key(a), province_key(b), province_key(c));
    }

    fn is_le(&self, other: &Self) -> (r: bool) {
        let a = vec![self.provider_code.as_str()];
        let b = vec![other.provider_code.as_str()];
        assert(text::strs(a@) =~= province_key(*self));
        assert(text::strs(b@) =~= province_key(*other));
        text::keys_precede(&a, &b)
    }
}

impl Ranked for ProviderCity {
    open spec fn le(a: Self, b: Self) -> bool {
        text::keys_le(city_key(a), city_key(b))
    }

    proof fn le_total(a: Self, b: Self) {
        text::keys_le_total(city_key(a), city_key(b));
    }

    proof fn le_transitive(a: Self, b: Self, c: Self) {
        text::keys_le_transitive(city_key(a), city_key(b), city_key(c));
    }

    fn is_le(&self, other: &Self) -> (r: bool) {
        let a = vec![self.city.as_str(), self.provider_code.as_str()];
        let b = vec![other.city.as_str(), other.provider_code.as_str()];
        assert(text::strs(a@) =~= city_key(*self));
        assert(text::strs(b@) =~= city_key(*other));
        text::keys_precede(&a, &b)
    }
}

/// The provinces by their codes.
pub fn sort_provider_provinces(provinces: Vec<ProviderProvince>) -> (r: Vec<ProviderProvince>)
    ensures
        sorting::sorted_from(r@, provinces@),
        r@ == sorting::arranged(provinces@),
{
    sorting::sort(provinces)
}

/// The cities by their names, and those of one name by their codes.
pub fn sort_provider_cities(cities: Vec<ProviderCity>) -> (r: Vec<ProviderCity>)
    ensures
        sorting::sorted_from(r@, cities@),
        r@ == sorting::arranged(cities@),
{
    sorting::sort(cities)
}

/// What is asked of the provider: its provinces, or the cities of one of them.
pub open spec fn endpoint_of(province_code: Option<Seq<char>>) -> Seq<char> {
    match province_code {
        Some(code) => "rest/province/"@ + code,
        None => "rest/province/all"@,
    }
}

/// What is asked of the provider: its provinces, or the cities of one of them.
pub fn catalog_endpoint(province_code: Option<&str>) -> (r: String)
    ensures
        r@ == endpoint_of(text::opt_str(province_code)),
{
    match province_code {
        Some(code) => text::cat("rest/province/", code),
        None => "rest/province/all".to_owned(),
    }
}

/// The provinces that the provider gave, in order, where they passed their validation.
pub fn accept_provinces(
    fetched: Result<Vec<ProviderProvince>, String>,
    validation: Result<(), String>,
) -> (r: Result<Vec<ProviderProvince>, String>)
    ensures
        match (fetched, validation) {
            (Ok(rows), Ok(_)) => r matches Ok(v) && v@ == sorting::arranged(rows@)
                && sorting::sorted_from(v@, rows@),
            (Ok(_), Err(m)) => r == Err::<Vec<ProviderProvince>, _>(m),
            (Err(m), _) => r == Err::<Vec<ProviderProvince>, _>(m),
        },
{
    match (fetched, validation) {
        (Ok(rows), Ok(_)) => Ok(sort_provider_provinces(rows)),
        (Ok(_), Err(message)) => Err(message),
        (Err(message), _) => Err(message),
    }
}

/// The cities that the provider gave, in order, where they passed their validation.
pub fn accept_cities(
    fetched: Result<Vec<ProviderCity>, String>,
    validation: Result<(), String>,
) -> (r: Result<Vec<ProviderCity>, String>)
    ensures
        match (fetched, validation) {
            (Ok(rows), Ok(_)) => r matches Ok(v) && v@ == sorting::arranged(rows@)
                && sorting::sorted_from(v@, rows@),
            (Ok(_), Err(m)) => r == Err::<Vec<ProviderCity>, _>(m),
            (Err(m), _) => r == Err::<Vec<ProviderCity>, _>(m),
        },
{
    match (fetched, validation) {
        (Ok(rows), Ok(_)) => Ok(sort_provider_cities(rows)),
        (Ok(_), Err(message)) => Err(message),
        (Err(message), _) => Err(message),
    }
}

/// Those of the first `n` provinces that have a name.
pub open spec fn of_name(provinces: Seq<ProviderProvince>, n: nat, name: Seq<char>) -> Seq<
    ProviderProvince,
>
    decreases n,
{
    if n == 0 {
        Seq::empty()
    } else {
        let before = of_name(provinces, (n - 1) as nat, name);
        if provinces[n - 1].name@ == name {
            before.push(provinces[n - 1])
        } else {
            before
        }
    }
}

/// The codes of provinces.
pub open spec fn codes(provinces: Seq<ProviderProvince>) -> Seq<Seq<char>> {
    Seq::new(provinces.len(), |i: int| provinces[i].provider_code@)
}

/// Why a name does not tell a province, if it does not.
pub open spec fn province_fault(
    provinces: Seq<ProviderProvince>,
    provider: Seq<char>,
    province: Seq<char>,
) -> Option<Seq<char>> {
    let found = of_name(provinces, provinces.len(), province);
    if found.len() == 1 {
        None
    } else if found.len() == 0 {
        Some(
            "provider province `"@ + province + "` not found for `"@ + provider + "`"@,
        )
    } else {
        Some(
            "provider province `"@ + province + "` is ambiguous for `"@ + provider + "`: "@
                + text::joined(codes(found), ", "@),
        )
    }
}

/// The one province of a name.
pub fn resolve_provider_province(
    provinces: &Vec<ProviderProvince>,
    provider: &str,
    province: &str,
) -> (r: Result<ProviderProvince, String>)
    ensures
        match province_fault(provinces@, provider@, province@) {
            None => r == Ok::<_, String>(of_name(provinces@, provinces@.len(), province@)[0]),
            Some(m) => r matches Err(e) && e@ == m,
        },
{
    let mut found: Vec<ProviderProvince> = Vec::new();
    let mut found_codes: Vec<String> = Vec::new();
    let mut i: usize = 0;
    assert(text::texts(found_codes@) =~= codes(found@));
    while i < provinces.len()
        invariant
            i <= provinces@.len(),
            found@ == of_name(provinces@, i as nat, province@),
            text::texts(found_codes@) == codes(found@),
        decreases provinces@.len() - i,
    {
        if text::same(provinces[i].name.as_str(), province) {
            let ghost prior = found@;
            let ghost prior_codes = found_codes@;
            assert(text::texts(prior_codes).len() == codes(prior).len());
            found.push(provinces[i].clone());
            found_codes.push(provinces[i].provider_code.clone());
            assert forall|j: int| 0 <= j < found@.len() implies text::texts(found_codes@)[j]
                == codes(found@)[j] by {
                if j < prior.len() {
                    assert(text::texts(prior_codes)[j] == codes(prior)[j]);
                }
            }
            assert(text::texts(found_codes@) =~= codes(found@));
        }
        i = i + 1;
    }
    if found.len() == 1 {
        return Ok(found[0].clone());
    }
    let mut m = text::cat("provider province `", province);
    if found.len() == 0 {
        m.append("` not found for `");
        m.append(provider);
        m.append("`");
    } else {
        m.append("` is ambiguous for `");
        m.append(provider);
        m.append("`: ");
        m.append(text::join(&found_codes, ", ").as_str());
    }
    Err(m)
}

/// The cities of some provinces, by the codes of the provinces.
pub type CityScopes = TextMap<Vec<ProviderCity>>;

/// The cities of the first `n` provinces, and the scopes that are left; or the code that
/// has no scope.
pub open spec fn flattened(
    expected: Seq<Seq<char>>,
    n: nat,
    scopes: Map<Seq<char>, Vec<ProviderCity>>,
) -> Result<(Seq<ProviderCity>, Map<Seq<char>, Vec<ProviderCity>>), Seq<char>>
    decreases n,
{
    if n == 0 {
        Ok((Seq::empty(), scopes))
    } else {
        match flattened(expected, (n - 1) as nat, scopes) {
            Err(code) => Err(code),
            Ok((cities, left)) => {
                let code = expected[n - 1];
                if left.contains_key(code) {
                    Ok((cities + left[code]@, left.remove(code)))
                } else {
                    Err(code)
                }
            },
        }
    }
}

proof fn lemma_flattened_fails(
    expected: Seq<Seq<char>>,
    n: nat,
    m: nat,
    scopes: Map<Seq<char>, Vec<ProviderCity>>,
)
    requires
        n <= m <= expected.len(),
        flattened(expected, n, scopes) is Err,
    ensures
        flattened(expected, m, scopes) == flattened(expected, n, scopes),
    decreases m - n,
{
    if n < m {
        lemma_flattened_fails(expected, n, (m - 1) as nat, scopes);
    }
}

/// What is said of a province without cities.
pub open spec fn unpopulated(code: Seq<char>) -> Seq<char> {
    "provider city scope `"@ + code + "` was not populated"@
}

/// The cities of the expected provinces, in the order of the provinces.
pub fn flatten_city_scopes(expected_codes: &Vec<String>, scopes: CityScopes) -> (r: Result<
    Vec<ProviderCity>,
    String,
>)
    requires
        scopes.wf(),
    ensures
        match flattened(text::texts(expected_codes@), expected_codes@.len(), scopes@) {
            Ok((cities, _)) => r matches Ok(v) && v@ == cities,
            Err(code) => r matches Err(m) && m@ == unpopulated(code),
        },
{
    let ghost expected = text::texts(expected_codes@);
    let ghost all = scopes@;
    let mut left = scopes;
    let mut cities: Vec<ProviderCity> = Vec::new();
    let mut i: usize = 0;
    while i < expected_codes.len()
        invariant
            i <= expected_codes@.len(),
            expected == text::texts(expected_codes@),
            all == scopes@,
            left.wf(),
            flattened(expected, i as nat, all) == Ok::<_, Seq<char>>((cities@, left@)),
        decreases expected_codes@.len() - i,
    {
        let code = expected_codes[i].as_str();
        assert(expected[i as int] == code@);
        match left.take(code) {
            Some(scope) => {
                let mut scope = scope;
                cities.append(&mut scope);
            },
            None => {
                proof {
                    assert(flattened(expected, (i + 1) as nat, all) == Err::<
                        (Seq<ProviderCity>, Map<Seq<char>, Vec<ProviderCity>>),
                        Seq<char>,
                    >(code@));
                    lemma_flattened_fails(expected, (i + 1) as nat, expected.len(), all);
                }
                let m = text::cat("provider city scope `", code).concat("` was not populated");
                assert(m@ == unpopulated(code@));
                return Err(m);
            },
        }
        i = i + 1;
    }
    Ok(cities)
}

/// The index of the first city that has a code.
pub open spec fn code_at(cities: Seq<ProviderCity>, n: nat, code: Seq<char>) -> Option<int>
    decreases n,
{
    if n == 0 {
        None
    } else {
        match code_at(cities, (n - 1) as nat, code) {
            Some(i) => Some(i),
            None => if cities[n - 1].provider_code@ == code {
                Some(n - 1)
            } else {
                None
            },
        }
    }
}

/// The index of the first city whose code occurs before it.
pub open spec fn repeated(cities: Seq<ProviderCity>, n: nat) -> Option<int>
    decreases n,
{
    if n == 0 {
        None
    } else {
        match repeated(cities, (n - 1) as nat) {
            Some(i) => Some(i),
            None => if code_at(cities, (n - 1) as nat, cities[n - 1].provider_code@) is Some {
                Some(n - 1)
            } else {
                None
            },
        }
    }
}

proof fn lemma_repeated(cities: Seq<ProviderCity>, n: nat, m: nat)
    requires
        n <= m <= cities.len(),
        repeated(cities, n) is Some,
    ensures
        repeated(cities, m) == repeated(cities, n),
    decreases m - n,
{
    if n < m {
        lemma_repeated(cities, n, (m - 1) as nat);
    }
}

fn find_code(cities: &Vec<ProviderCity>, n: usize, code: &str) -> (r: Option<usize>)
    requires
        n <= cities@.len(),
    ensures
        match r {
            Some(i) => i < n && code_at(cities@, n as nat, code@) == Some(i as int),
            None => code_at(cities@, n as nat, code@) is None,
        },
{
    let mut found: Option<usize> = None;
    let mut i: usize = 0;
    while i < n
        invariant
            i <= n <= cities@.len(),
            match found {
                Some(k) => k < i && code_at(cities@, i as nat, code@) == Some(k as int),
                None => code_at(cities@, i as nat, code@) is None,
            },
        decreases n - i,
    {
        if found.is_none() && text::same(cities[i].provider_code.as_str(), code) {
            found = Some(i);
        }
        i = i + 1;
    }
    found
}

/// What is said of a city code that occurs twice.
pub open spec fn repeated_text(first: ProviderCity, second: ProviderCity) -> Seq<char> {
    "duplicate provider city code `"@ + second.provider_code@ + "` across province scopes `"@
        + first.provider_province_code@ + "` and `"@ + second.provider_province_code@ + "`"@
}

/// Checks that no city code occurs twice.
pub fn validate_population_city_codes(cities: &Vec<ProviderCity>) -> (r: Result<(), String>)
    ensures
        match repeated(cities@, cities@.len()) {
            None => r is Ok,
            Some(i) => r matches Err(m) && m@ == repeated_text(
                cities@[code_at(cities@, i as nat, cities@[i].provider_code@)->0],
                cities@[i],
            ),
        },
{
    let mut i: usize = 0;
    while i < cities.len()
        invariant
            i <= cities@.len(),
            repeated(cities@, i as nat) is None,
        decreases cities@.len() - i,
    {
        match find_code(cities, i, cities[i].provider_code.as_str()) {
            Some(k) => {
                proof {
                    lemma_repeated(cities@, (i + 1) as nat, cities@.len());
                }
                let mut m = text::cat(
                    "duplicate provider city code `",
                    cities[i].provider_code.as_str(),
                );
                m.append("` across province scopes `");
                m.append(cities[k].provider_province_code.as_str());
                m.append("` and `");
                m.append(cities[i].provider_province_code.as_str());
                m.append("`");
                return Err(m);
            },
            None => {},
        }
        i = i + 1;
    }
    Ok(())
}

/// A catalog in which every city code occurs once.
pub proof fn sound_catalogs_have_unique_codes(cities: Seq<ProviderCity>, i: int, j: int)
    requires
        repeated(cities, cities.len()) is None,
        0 <= i < j < cities.len(),
    ensures
        cities[i].provider_code@ != cities[j].provider_code@,
{
    lemma_no_repeat(cities, cities.len(), j);
    lemma_code_at(cities, j as nat, i);
}

proof fn lemma_no_repeat(cities: Seq<ProviderCity>, n: nat, j: int)
    requires
        repeated(cities, n) is None,
        0 <= j < n <= cities.len(),
    ensures
        code_at(cities, j as nat, cities[j].provider_code@) is None,
    decreases n,
{
    if j < n - 1 {
        lemma_no_repeat(cities, (n - 1) as nat, j);
    }
}

proof fn lemma_code_at(cities: Seq<ProviderCity>, n: nat, i: int)
    requires
        0 <= i < n <= cities.len(),
    ensures
        code_at(cities, n, cities[i].provider_code@) is Some,
    decreases n,
{
    if i < n - 1 {
        lemma_code_at(cities, (n - 1) as nat, i);
    }
}

/// A message with a warning added.
pub open spec fn warned_too(message: Option<Seq<char>>, warning: Seq<char>) -> Seq<char> {
    match message {
        Some(m) => m + "; "@ + warning,
        None => warning,
    }
}

/// Adds a warning to a message.
pub fn append_warning(message: Option<String>, warning: &str) -> (r: Option<String>)
    ensures
        text::opt_text(r) == Some(warned_too(text::opt_text(message), warning@)),
{
    match message {
        Some(message) => {
            let mut all = message;
            all.append("; ");
            all.append(warning);
            Some(all)
        },
        None => Some(warning.to_owned()),
    }
}

/// Catalog rows as they are kept.
#[derive(Debug)]
pub struct CatalogRows<T> {
    pub items: Vec<T>,
    pub fetched_at_unix_ms: i64,
}

/// What a refresh starts with.
#[derive(Debug)]
pub enum CatalogStart<T> {
    /// The kept rows serve.
    Serve(Vec<T>),
    /// The provider is to be asked. Rows that served earlier are the fallback.
    Fetch(Option<Vec<T>>),
}

/// What a refresh starts with.
pub open spec fn refresh_start<T>(
    cached: Option<CatalogRows<T>>,
    now_unix_ms: i64,
    ttl_seconds: u64,
) -> CatalogStart<T> {
    match cached {
        Some(rows) => if rows_fresh(
            rows.fetched_at_unix_ms as int,
            now_unix_ms as int,
            ttl_seconds as int,
        ) {
            CatalogStart::Serve(rows.items)
        } else {
            CatalogStart::Fetch(Some(rows.items))
        },
        None => CatalogStart::Fetch(None),
    }
}

/// What a refresh starts with.
pub fn begin_catalog_refresh<T>(
    cached: Option<CatalogRows<T>>,
    now_unix_ms: i64,
    ttl_seconds: u64,
) -> (r: CatalogStart<T>)
    ensures
        r == refresh_start(cached, now_unix_ms, ttl_seconds),
{
    match cached {
        Some(rows) => {
            if catalog_cache_is_fresh(rows.fetched_at_unix_ms, now_unix_ms, ttl_seconds) {
                CatalogStart::Serve(rows.items)
            } else {
                CatalogStart::Fetch(Some(rows.items))
            }
        },
        None => CatalogStart::Fetch(None),
    }
}

/// What became of keeping the provider's rows.
#[derive(Debug)]
pub enum KeepOutcome<T> {
    /// They could not be written.
    WriteFailed(String),
    /// They were written, and read back as these.
    Reread(Vec<T>),
    /// They were written, and are not there.
    Gone,
    /// They were written, and could not be read back.
    RereadFailed(String),
}

/// The rows that are served once the provider's rows were to be kept, and what went wrong.
pub open spec fn kept_rows<T>(upstream: Vec<T>, outcome: KeepOutcome<T>) -> (
    Vec<T>,
    Option<Seq<char>>,
) {
    match outcome {
        KeepOutcome::WriteFailed(m) => (upstream, Some("catalog cache write failed: "@ + m@)),
        KeepOutcome::Reread(items) => (items, None),
        KeepOutcome::Gone => (
            upstream,
            Some("catalog cache re-read returned no value after replacement"@),
        ),
        KeepOutcome::RereadFailed(m) => (upstream, Some("catalog cache re-read failed: "@ + m@)),
    }
}

/// The rows that are served once the provider's rows were to be kept, and what went wrong.
pub fn persist_catalog<T>(upstream: Vec<T>, outcome: KeepOutcome<T>) -> (r: (
    Vec<T>,
    Option<String>,
))
    ensures
        (r.0, text::opt_text(r.1)) == kept_rows(upstream, outcome),
{
    match outcome {
        KeepOutcome::WriteFailed(m) => (
            upstream,
            Some(text::cat("catalog cache write failed: ", m.as_str())),
        ),
        KeepOutcome::Reread(items) => (items, None),
        KeepOutcome::Gone => (
            upstream,
            Some("catalog cache re-read returned no value after replacement".to_owned()),
        ),
        KeepOutcome::RereadFailed(m) => (
            upstream,
            Some(text::cat("catalog cache re-read failed: ", m.as_str())),
        ),
    }
}

/// What is logged of a refresh: in the database, and as an event.
#[derive(Debug, PartialEq, Eq)]
pub struct CatalogLog {
    pub persisted_ok: bool,
    pub persisted_message: Option<String>,
    pub event_ok: bool,
    pub event_message: Option<String>,
}

/// The log of a refresh reads so.
pub open spec fn logs(
    log: CatalogLog,
    ok: bool,
    persisted: Option<Seq<char>>,
    event: Option<Seq<char>>,
) -> bool {
    &&& log.persisted_ok == ok
    &&& text::opt_text(log.persisted_message) == persisted
    &&& log.event_ok == ok
    &&& text::opt_text(log.event_message) == event
}

/// The rows that a refresh ends with, or why it ends without.
pub open spec fn refresh_end<T>(
    fetched: Result<(Vec<T>, KeepOutcome<T>), String>,
    stale: Option<Vec<T>>,
) -> Result<Vec<T>, String> {
    match fetched {
        Ok((upstream, outcome)) => Ok(kept_rows(upstream, outcome).0),
        Err(m) => match stale {
            Some(rows) => Ok(rows),
            None => Err(m),
        },
    }
}

/// What a refresh ends with: the provider's rows as they were kept; where the provider
/// failed the rows that served earlier, if there are any; else the failure.
pub fn conclude_catalog_refresh<T>(
    fetched: Result<(Vec<T>, KeepOutcome<T>), String>,
    stale: Option<Vec<T>>,
) -> (r: (Result<Vec<T>, String>, CatalogLog))
    ensures
        r.0 == refresh_end(fetched, stale),
        match fetched {
            Ok((upstream, outcome)) => {
                let warning = kept_rows(upstream, outcome).1;
                logs(r.1, true, warning, warning)
            },
            Err(m) => logs(
                r.1,
                false,
                Some(m@),
                Some(
                    if stale is Some {
                        "using stale catalog after "@ + m@
                    } else {
                        m@
                    },
                ),
            ),
        },
{
    match fetched {
        Ok((upstream, outcome)) => {
            let (rows, warning) = persist_catalog(upstream, outcome);
            let log = CatalogLog {
                persisted_ok: true,
                persisted_message: text::copy_optional(&warning),
                event_ok: true,
                event_message: warning,
            };
            (Ok(rows), log)
        },
        Err(message) => match stale {
            Some(rows) => {
                let log = CatalogLog {
                    persisted_ok: false,
                    persisted_message: Some(message.clone()),
                    event_ok: false,
                    event_message: Some(text::cat("using stale catalog after ", message.as_str())),
                };
                (Ok(rows), log)
            },
            None => {
                let log = CatalogLog {
                    persisted_ok: false,
                    persisted_message: Some(message.clone()),
                    event_ok: false,
                    event_message: Some(message.clone()),
                };
                (Err(message), log)
            },
        },
    }
}

/// The message of the event, once the refresh was to be logged in the database.
pub fn catalog_event_message(event_message: Option<String>, logged: Result<(), String>) -> (r:
    Option<String>)
    ensures
        text::opt_text(r) == match logged {
            Ok(_) => text::opt_text(event_message),
            Err(m) => Some(
                warned_too(text::opt_text(event_message), "fetch log write failed: "@ + m@),
            ),
        },
{
    match logged {
        Ok(_) => event_message,
        Err(m) => append_warning(
            event_message,
            text::cat("fetch log write failed: ", m.as_str()).as_str(),
        ),
    }
}

/// A failing provider never takes the catalog away: rows that were kept, however old, are
/// served.
pub proof fn kept_rows_survive<T>(
    rows: CatalogRows<T>,
    now_unix_ms: i64,
    ttl_seconds: u64,
    failure: String,
)
    ensures
        match refresh_start(Some(rows), now_unix_ms, ttl_seconds) {
            CatalogStart::Serve(served) => served == rows.items,
            CatalogStart::Fetch(stale) => refresh_end(
                Err::<(Vec<T>, KeepOutcome<T>), _>(failure),
                stale,
            ) == Ok::<_, String>(rows.items),
        },
{
}

/// Catalog rows serve until the time that they serve has passed, to the millisecond. Rows
/// from the future are new, and rows that serve for no time never do.
pub proof fn rows_serve_for_a_while(fetched_at: int, now: int, ttl_seconds: int)
    requires
        i64::MIN <= fetched_at <= i64::MAX,
        i64::MIN <= now <= i64::MAX,
        0 <= ttl_seconds <= u64::MAX,
    ensures
        fetched_at <= now && now - fetched_at <= i64::MAX ==> (rows_fresh(
            fetched_at,
            now,
            ttl_seconds,
        ) <==> now < fetched_at + ttl_seconds * 1000),
        now < fetched_at && ttl_seconds > 0 ==> rows_fresh(fetched_at, now, ttl_seconds),
        ttl_seconds == 0 ==> !rows_fresh(fetched_at, now, ttl_seconds),
{
}

/// Sorted provinces stand by their codes.
pub proof fn provinces_stand_by_their_codes(rows: Seq<ProviderProvince>, i: int, j: int)
    requires
        0 <= i < j < rows.len(),
    ensures
        sorting::arranged(rows).len() == rows.len(),
        text::text_le(
            sorting::arranged(rows)[i].provider_code@,
            sorting::arranged(rows)[j].provider_code@,
        ),
{
    sorting::sorted_lists_ascend(rows, i, j);
    let a = province_key(sorting::arranged(rows)[i]);
    let b = province_key(sorting::arranged(rows)[j]);
    assert(a[0] == sorting::arranged(rows)[i].provider_code@);
    assert(b[0] == sorting::arranged(rows)[j].provider_code@);
    text::text_le_total(a[0], a[0]);
    assert(a.take(0) =~= b.take(0));
    if a[0] != b[0] {
        text::keys_are_ordered_by_their_first_difference(a, b, 0);
    }
}

/// Sorted cities stand by their names, and those of one name by their codes.
pub proof fn cities_stand_by_their_names(rows: Seq<ProviderCity>, i: int, j: int)
    requires
        0 <= i < j < rows.len(),
    ensures
        sorting::arranged(rows).len() == rows.len(),
        text::text_le(sorting::arranged(rows)[i].city@, sorting::arranged(rows)[j].city@),
        sorting::arranged(rows)[i].city@ == sorting::arranged(rows)[j].city@ ==> text::text_le(
            sorting::arranged(rows)[i].provider_code@,
            sorting::arranged(rows)[j].provider_code@,
        ),
{
    sorting::sorted_lists_ascend(rows, i, j);
    let a = city_key(sorting::arranged(rows)[i]);
    let b = city_key(sorting::arranged(rows)[j]);
    assert(a[0] == sorting::arranged(rows)[i].city@ && b[0] == sorting::arranged(rows)[j].city@);
    assert(a[1] == sorting::arranged(rows)[i].provider_code@);
    assert(b[1] == sorting::arranged(rows)[j].provider_code@);
    text::text_le_total(a[0], a[0]);
    text::text_le_total(a[1], a[1]);
    assert(a.take(0) =~= b.take(0));
    if a[0] != b[0] {
        text::keys_are_ordered_by_their_first_difference(a, b, 0);
    } else if a[1] != b[1] {
        assert(a.take(1) =~= b.take(1));
        text::keys_are_ordered_by_their_first_difference(a, b, 1);
    }
}

/// The provider is asked for the cities of a province by its code, and for its provinces
/// where no code is given.
pub proof fn catalogs_are_asked_for_by_code(code: Seq<char>)
    ensures
        endpoint_of(Some(code)) == "rest/province/"@ + code,
        endpoint_of(None) == "rest/province/all"@,
{
}

/// A name tells a province where it is the only one of that name; a name that none has or
/// that several have tells none.
pub proof fn only_one_province_is_told(
    provinces: Seq<ProviderProvince>,
    provider: Seq<char>,
    name: Seq<char>,
    k: int,
    m: int,
)
    ensures
        0 <= k < provinces.len() && provinces[k].name@ == name && (forall|i: int|
            0 <= i < provinces.len() && i != k ==> (#[trigger] provinces[i]).name@ != name)
            ==> province_fault(provinces, provider, name) is None && of_name(
            provinces,
            provinces.len(),
            name,
        )[0] == provinces[k],
        0 <= k < m < provinces.len() && provinces[k].name@ == name && provinces[m].name@ == name
            ==> province_fault(provinces, provider, name) is Some,
        (forall|i: int| 0 <= i < provinces.len() ==> (#[trigger] provinces[i]).name@ != name)
            ==> province_fault(provinces, provider, name) is Some,
{
    let n = provinces.len();
    if 0 <= k < n && provinces[k].name@ == name && (forall|i: int|
        0 <= i < provinces.len() && i != k ==> (#[trigger] provinces[i]).name@ != name) {
        lemma_none_of_name(provinces, k as nat, name);
        lemma_one_of_name(provinces, n, name, k);
    }
    if 0 <= k < m < n && provinces[k].name@ == name && provinces[m].name@ == name {
        lemma_counted_of_name(provinces, m as nat, n, name);
        lemma_counted_of_name(provinces, k as nat, m as nat, name);
    }
    if forall|i: int| 0 <= i < n ==> (#[trigger] provinces[i]).name@ != name {
        lemma_none_of_name(provinces, n, name);
    }
}

proof fn lemma_none_of_name(provinces: Seq<ProviderProvince>, n: nat, name: Seq<char>)
    requires
        n <= provinces.len(),
        forall|i: int| 0 <= i < n ==> (#[trigger] provinces[i]).name@ != name,
    ensures
        of_name(provinces, n, name).len() == 0,
    decreases n,
{
    if n > 0 {
        lemma_none_of_name(provinces, (n - 1) as nat, name);
    }
}

proof fn lemma_one_of_name(provinces: Seq<ProviderProvince>, n: nat, name: Seq<char>, k: int)
    requires
        0 <= k < n <= provinces.len(),
        of_name(provinces, k as nat, name).len() == 0,
        provinces[k].name@ == name,
        forall|i: int| 0 <= i < n && i != k ==> (#[trigger] provinces[i]).name@ != name,
    ensures
        of_name(provinces, n, name) == seq![provinces[k]],
    decreases n,
{
    if k < n - 1 {
        lemma_one_of_name(provinces, (n - 1) as nat, name, k);
    } else {
        assert(of_name(provinces, n, name) =~= seq![provinces[k]]);
    }
}

proof fn lemma_counted_of_name(provinces: Seq<ProviderProvince>, k: nat, n: nat, name: Seq<char>)
    requires
        k < n <= provinces.len(),
        provinces[k as int].name@ == name,
    ensures
        of_name(provinces, n, name).len() > of_name(provinces, k, name).len(),
    decreases n,
{
    if k < n - 1 {
        lemma_counted_of_name(provinces, k, (n - 1) as nat, name);
    }
}

/// A catalog is made of the cities of the provinces, in the order of the provinces: each
/// city of a province is there, behind those of the provinces before it.
pub proof fn cities_follow_their_provinces(
    expected: Seq<Seq<char>>,
    n: nat,
    scopes: Map<Seq<char>, Vec<ProviderCity>>,
    i: int,
)
    requires
        expected.no_duplicates(),
        0 <= i < n <= expected.len(),
        flattened(expected, n, scopes) is Ok,
    ensures
        scopes.contains_key(expected[i]),
        flattened(expected, i as nat, scopes) is Ok,
        ({
            let all = flattened(expected, n, scopes)->Ok_0.0;
            let start = flattened(expected, i as nat, scopes)->Ok_0.0.len();
            let own = scopes[expected[i]]@;
            &&& start + own.len() <= all.len()
            &&& i == 0 ==> start == 0
            &&& i == n - 1 ==> start + own.len() == all.len()
            &&& all.subrange(start as int, (start + own.len()) as int) == own
        }),
    decreases n,
{
    let m = (n - 1) as nat;
    let (before, left) = flattened(expected, m, scopes)->Ok_0;
    let all = flattened(expected, n, scopes)->Ok_0.0;
    if i < m {
        cities_follow_their_provinces(expected, m, scopes, i);
        let start = flattened(expected, i as nat, scopes)->Ok_0.0.len();
        let own = scopes[expected[i]]@;
        assert(all.subrange(start as int, (start + own.len()) as int) =~= before.subrange(
            start as int,
            (start + own.len()) as int,
        ));
    } else {
        lemma_scopes_left(expected, m, scopes);
        let own = scopes[expected[i]]@;
        assert(left.contains_key(expected[i]));
        assert(left[expected[i]] == scopes[expected[i]]);
        assert(all.subrange(before.len() as int, (before.len() + own.len()) as int) =~= own);
    }
}

proof fn lemma_scopes_left(
    expected: Seq<Seq<char>>,
    n: nat,
    scopes: Map<Seq<char>, Vec<ProviderCity>>,
)
    requires
        n <= expected.len(),
        flattened(expected, n, scopes) is Ok,
    ensures
        forall|code: Seq<char>| #[trigger]
            flattened(expected, n, scopes)->Ok_0.1.contains_key(code)
                ==> scopes.contains_key(code) && flattened(expected, n, scopes)->Ok_0.1[code]
                == scopes[code],
        forall|code: Seq<char>|
            scopes.contains_key(code) && !expected.take(n as int).contains(code)
                ==> #[trigger] flattened(expected, n, scopes)->Ok_0.1.contains_key(code),
    decreases n,
{
    if n > 0 {
        let m = (n - 1) as nat;
        lemma_scopes_left(expected, m, scopes);
        let before = flattened(expected, m, scopes)->Ok_0.1;
        let left = flattened(expected, n, scopes)->Ok_0.1;
        assert(left == before.remove(expected[n - 1]));
        assert forall|code: Seq<char>| #[trigger] left.contains_key(code) implies
            scopes.contains_key(code) && left[code] == scopes[code] by {
            assert(before.contains_key(code));
        }
        assert forall|code: Seq<char>|
            scopes.contains_key(code) && !expected.take(n as int).contains(
                code,
            ) implies #[trigger] left.contains_key(code) by {
            assert(expected.take(n as int)[n - 1] == expected[n - 1]);
            if expected.take(m as int).contains(code) {
                let k = choose|k: int|
                    0 <= k < m && expected.take(m as int)[k] == code;
                assert(expected.take(n as int)[k] == code);
            }
            assert(before.contains_key(code));
        }
    }
}

/// A catalog is there exactly where the cities of every province are; the first province
/// without any is the one that is complained of.
pub proof fn no_province_goes_without_cities(
    expected: Seq<Seq<char>>,
    n: nat,
    scopes: Map<Seq<char>, Vec<ProviderCity>>,
)
    requires
        expected.no_duplicates(),
        n <= expected.len(),
    ensures
        (forall|i: int| 0 <= i < n ==> scopes.contains_key(#[trigger] expected[i])) ==> flattened(
            expected,
            n,
            scopes,
        ) is Ok,
        flattened(expected, n, scopes) matches Err(code) ==> exists|i: int|
            0 <= i < n && #[trigger] expected[i] == code && !scopes.contains_key(code) && forall|
                k: int,
            |
                0 <= k < i ==> scopes.contains_key(#[trigger] expected[k]),
    decreases n,
{
    if n > 0 {
        let m = (n - 1) as nat;
        no_province_goes_without_cities(expected, m, scopes);
        if flattened(expected, m, scopes) is Ok {
            lemma_scopes_left(expected, m, scopes);
            let code = expected[n - 1];
            if expected.take(m as int).contains(code) {
                let k = choose|k: int| 0 <= k < m && expected.take(m as int)[k] == code;
                assert(expected[k] == expected[n - 1]);
            }
            if flattened(expected, n, scopes) is Err {
                assert(!scopes.contains_key(code));
                assert forall|k: int| 0 <= k < m implies scopes.contains_key(
                    #[trigger] expected[k],
                ) by {
                    cities_follow_their_provinces(expected, m, scopes, k);
                }
                assert(expected[n - 1] == code);
            }
        }
    }
}

/// A code that is complained of occurs twice: in a city before and in this one, which is the
/// first of that kind.
pub proof fn repeated_codes_are_found(cities: Seq<ProviderCity>, n: nat)
    requires
        n <= cities.len(),
    ensures
        repeated(cities, n) is None <==> forall|i: int, j: int|
            0 <= i < j < n ==> (#[trigger] cities[i]).provider_code@ != (
            #[trigger] cities[j]).provider_code@,
        repeated(cities, n) matches Some(j) ==> {
            &&& 0 <= j < n
            &&& code_at(cities, j as nat, cities[j].provider_code@) matches Some(i)
            &&& 0 <= i < j
            &&& cities[i].provider_code@ == cities[j].provider_code@
            &&& forall|a: int, b: int|
                0 <= a < b < j ==> (#[trigger] cities[a]).provider_code@ != (
                #[trigger] cities[b]).provider_code@
        },
    decreases n,
{
    if n > 0 {
        let m = (n - 1) as nat;
        repeated_codes_are_found(cities, m);
        lemma_code_at_first(cities, m, cities[n - 1].provider_code@);
        if repeated(cities, m) is None && repeated(cities, n) is None {
            assert forall|i: int, j: int| 0 <= i < j < n implies (
            #[trigger] cities[i]).provider_code@ != (#[trigger] cities[j]).provider_code@ by {
                if j == n - 1 && cities[i].provider_code@ == cities[j].provider_code@ {
                    lemma_code_at(cities, m, i);
                }
            }
        }
        if repeated(cities, m) is Some {
            let j = repeated(cities, m).unwrap();
            let i = code_at(cities, j as nat, cities[j].provider_code@).unwrap();
            assert(cities[i].provider_code@ == cities[j].provider_code@);
        } else if repeated(cities, n) is Some {
            let i = code_at(cities, m, cities[n - 1].provider_code@).unwrap();
            assert(cities[i].provider_code@ == cities[n - 1].provider_code@);
        }
    }
}

proof fn lemma_code_at_first(cities: Seq<ProviderCity>, n: nat, code: Seq<char>)
    requires
        n <= cities.len(),
    ensures
        code_at(cities, n, code) matches Some(i) ==> 0 <= i < n && cities[i].provider_code@ == code
            && forall|k: int| 0 <= k < i ==> (#[trigger] cities[k]).provider_code@ != code,
        code_at(cities, n, code) is None ==> forall|k: int|
            0 <= k < n ==> (#[trigger] cities[k]).provider_code@ != code,
    decreases n,
{
    if n > 0 {
        lemma_code_at_first(cities, (n - 1) as nat, code);
    }
}

/// A warning is told behind what is told already.
pub proof fn warnings_are_added(message: Seq<char>, warning: Seq<char>)
    ensures
        warned_too(Some(message), warning) == message + "; "@ + warning,
        warned_too(None, warning) == warning,
{
}

/// A refresh serves what was kept while that serves, without asking the provider; later it
/// asks, and holds what was kept as the fallback.
pub proof fn kept_rows_are_served_for_a_while<T>(
    rows: CatalogRows<T>,
    now_unix_ms: i64,
    ttl_seconds: u64,
)
    requires
        rows.fetched_at_unix_ms <= now_unix_ms,
        now_unix_ms - rows.fetched_at_unix_ms <= i64::MAX,
    ensures
        now_unix_ms < rows.fetched_at_unix_ms + ttl_seconds * 1000 ==> refresh_start(
            Some(rows),
            now_unix_ms,
            ttl_seconds,
        ) == CatalogStart::Serve(rows.items),
        now_unix_ms >= rows.fetched_at_unix_ms + ttl_seconds * 1000 ==> refresh_start(
            Some(rows),
            now_unix_ms,
            ttl_seconds,
        ) == CatalogStart::Fetch(Some(rows.items)),
        refresh_start(None::<CatalogRows<T>>, now_unix_ms, ttl_seconds) == CatalogStart::Fetch(
            None::<Vec<T>>,
        ),
{
    rows_serve_for_a_while(rows.fetched_at_unix_ms as int, now_unix_ms as int, ttl_seconds as int);
}

/// The provider's rows are served as they are read back from where they were kept, and as
/// they came where they could not be kept or read back; only then there is a warning.
pub proof fn the_providers_rows_are_served<T>(
    upstream: Vec<T>,
    reread: Vec<T>,
    m: String,
    stale: Option<Vec<T>>,
)
    ensures
        kept_rows(upstream, KeepOutcome::Reread(reread)) == (reread, None::<Seq<char>>),
        kept_rows(upstream, KeepOutcome::WriteFailed(m)).0 == upstream,
        kept_rows(upstream, KeepOutcome::WriteFailed(m)).1 == Some(
            "catalog cache write failed: "@ + m@,
        ),
        kept_rows(upstream, KeepOutcome::Gone).0 == upstream,
        kept_rows(upstream, KeepOutcome::Gone).1 is Some,
        kept_rows(upstream, KeepOutcome::RereadFailed(m)).0 == upstream,
        kept_rows(upstream, KeepOutcome::RereadFailed(m)).1 == Some(
            "catalog cache re-read failed: "@ + m@,
        ),
        refresh_end(Ok::<_, String>((upstream, KeepOutcome::Reread(reread))), stale) == Ok::<
            _,
            String,
        >(reread),
        refresh_end(Ok::<_, String>((upstream, KeepOutcome::WriteFailed(m))), stale) == Ok::<
            _,
            String,
        >(upstream),
        refresh_end(Ok::<_, String>((upstream, KeepOutcome::<T>::Gone)), stale) == Ok::<_, String>(
            upstream,
        ),
        refresh_end(Ok::<_, String>((upstream, KeepOutcome::RereadFailed(m))), stale) == Ok::<
            _,
            String,
        >(upstream),
        refresh_end(Err::<(Vec<T>, KeepOutcome<T>), _>(m), stale) == match stale {
            Some(rows) => Ok::<_, String>(rows),
            None => Err(m),
        },
{
}

/// The log of a refresh tells the same end in the database and as an event.
pub proof fn refreshes_are_logged_alike(
    log: CatalogLog,
    ok: bool,
    persisted: Option<Seq<char>>,
    event: Option<Seq<char>>,
)
    requires
        logs(log, ok, persisted, event),
    ensures
        log.persisted_ok == ok,
        log.event_ok == ok,
        log.persisted_message is Some <==> persisted is Some,
        persisted is Some ==> log.persisted_message.unwrap()@ == persisted.unwrap(),
        log.event_message is Some <==> event is Some,
        event is Some ==> log.event_message.unwrap()@ == event.unwrap(),
{
}

/// What is wrong with a name, a province without cities or a code that occurs twice is told
/// with the names and codes.
pub proof fn catalog_faults_are_told(
    provinces: Seq<ProviderProvince>,
    provider: Seq<char>,
    name: Seq<char>,
    code: Seq<char>,
    a: ProviderCity,
    b: ProviderCity,
    i: int,
)
    ensures
        of_name(provinces, provinces.len(), name).len() == 0 ==> province_fault(
            provinces,
            provider,
            name,
        ) == Some("provider province `"@ + name + "` not found for `"@ + provider + "`"@),
        of_name(provinces, provinces.len(), name).len() > 1 ==> province_fault(
            provinces,
            provider,
            name,
        ) == Some(
            "provider province `"@ + name + "` is ambiguous for `"@ + provider + "`: "@
                + text::joined(codes(of_name(provinces, provinces.len(), name)), ", "@),
        ),
        codes(provinces).len() == provinces.len(),
        0 <= i < provinces.len() ==> codes(provinces)[i] == provinces[i].provider_code@,
        unpopulated(code) == "provider city scope `"@ + code + "` was not populated"@,
        repeated_text(a, b) == "duplicate provider city code `"@ + b.provider_code@
            + "` across province scopes `"@ + a.provider_province_code@ + "` and `"@
            + b.provider_province_code@ + "`"@,
{
}

} // verus!
