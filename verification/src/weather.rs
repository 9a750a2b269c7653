//! Answering weather requests: what is served from the cache, what a fetch makes of
//! the provider's answer, and what is served where the provider fails.

use vstd::prelude::*;
use crate::clock;
use crate::dates::{self, CivilDate};
use crate::history::{self, Temperatures};
use crate::nmc::mapper::WeatherFetch;
use crate::reading::Reading;
use crate::report::{
    AirQuality,
    DebugPayload,
    ForecastDay,
    ForecastReport,
    ObservedWeather,
    TemperatureChart,
    WeatherAlert,
    WeatherSnapshot,
};
use crate::station::{self, ProviderStation};
use crate::text;

verus! {

/// A snapshot that is kept, with the day it is kept for and the time of its fetch.
#[derive(Debug)]
pub struct StoredSnapshot {
    pub date: String,
    pub snapshot: WeatherSnapshot,
    pub fetched_at_unix_ms: i64,
}

/// What freshness is judged by.
#[derive(Debug)]
pub struct FreshnessPolicy {
    pub now_unix_ms: i64,
    pub weather_ttl_seconds: u64,
    pub timezone: String,
}

/// The warnings in one text, if there are any.
pub open spec fn summary(warnings: Seq<Seq<char>>) -> Option<Seq<char>> {
    if warnings.len() == 0 {
        None
    } else {
        Some(text::joined(warnings, "; "@))
    }
}

/// The warnings in one text, if there are any.
pub fn warning_summary(warnings: &Vec<String>) -> (r: Option<String>)
    ensures
        text::opt_text(r) == summary(text::texts(warnings@)),
{
    if warnings.len() == 0 {
        None
    } else {
        Some(text::join(warnings, "; "))
    }
}

/// The name of the municipality whose air quality stands for a place within it: a
/// place other than the municipality itself, in a province that is a city.
pub open spec fn air_parent(province: Seq<char>, city: Seq<char>) -> Option<Seq<char>> {
    let municipality = station::short_name(province);
    if !text::ends(province, "市"@) || municipality.len() == 0 || city == municipality || city
        == province {
        None
    } else {
        Some(station::canonical_name(province, municipality))
    }
}

/// The name of the municipality whose air quality stands for a place within it.
pub fn municipality_air_parent_name(province: &str, city: &str) -> (r: Option<String>)
    ensures
        text::opt_text(r) == air_parent(province@, city@),
{
    if text::strip_suffix(province, "市").is_none() {
        return None;
    }
    let municipality = station::short_region_name(province);
    if municipality.is_empty() || text::same(city, municipality) || text::same(city, province) {
        return None;
    }
    Some(station::canonical_station_name(province, municipality))
}

/// Two alerts say the same.
pub open spec fn alike(a: WeatherAlert, b: WeatherAlert) -> bool {
    &&& text::opt_text(a.alert) == text::opt_text(b.alert)
    &&& text::opt_text(a.province) == text::opt_text(b.province)
    &&& text::opt_text(a.city) == text::opt_text(b.city)
    &&& text::opt_text(a.issue_content) == text::opt_text(b.issue_content)
    &&& text::opt_text(a.signal_type) == text::opt_text(b.signal_type)
    &&& text::opt_text(a.signal_level) == text::opt_text(b.signal_level)
}

/// One of the alerts says the same as `a`.
pub open spec fn known_alert(alerts: Seq<WeatherAlert>, a: WeatherAlert) -> bool {
    exists|i: int| 0 <= i < alerts.len() && alike(#[trigger] alerts[i], a)
}

/// The alert as one that was taken over.
pub open spec fn inherited(a: WeatherAlert) -> WeatherAlert {
    WeatherAlert { inherited: true, ..a }
}

/// The alerts with those of the parent taken over that say something new.
pub open spec fn with_parents(
    alerts: Seq<WeatherAlert>,
    parents: Seq<WeatherAlert>,
) -> Seq<WeatherAlert>
    decreases parents.len(),
{
    if parents.len() == 0 {
        alerts
    } else {
        let so_far = with_parents(alerts, parents.drop_last());
        if known_alert(so_far, parents.last()) {
            so_far
        } else {
            so_far.push(inherited(parents.last()))
        }
    }
}

/// Whether two alerts say the same.
pub fn same_alert(left: &WeatherAlert, right: &WeatherAlert) -> (r: bool)
    ensures
        r == alike(*left, *right),
{
    text::same_optional(&left.alert, &right.alert) && text::same_optional(&left.province, &right.province)
        && text::same_optional(&left.city, &right.city) && text::same_optional(
        &left.issue_content,
        &right.issue_content,
    ) && text::same_optional(&left.signal_type, &right.signal_type) && text::same_optional(
        &left.signal_level,
        &right.signal_level,
    )
}

fn contains_alert(alerts: &Vec<WeatherAlert>, a: &WeatherAlert) -> (r: bool)
    ensures
        r == known_alert(alerts@, *a),
{
    let mut i: usize = 0;
    while i < alerts.len()
        invariant
            i <= alerts@.len(),
            forall|k: int| 0 <= k < i ==> !alike(#[trigger] alerts@[k], *a),
        decreases alerts@.len() - i,
    {
        if same_alert(&alerts[i], a) {
            return true;
        }
        i = i + 1;
    }
    false
}

/// An observation of nothing but alerts.
pub open spec fn nothing_but_alerts(o: ObservedWeather) -> bool {
    &&& o.publish_time is None
    &&& o.info is None
    &&& o.temperature is None
    &&& o.feel_temperature is None
    &&& o.humidity is None
    &&& o.rain is None
    &&& o.wind_direct is None
    &&& o.wind_power is None
    &&& o.wind_speed is None
    &&& o.sunrise is None
    &&& o.sunset is None
    &&& o.temperature_diff is None
    &&& o.air_pressure is None
    &&& o.comfort_index is None
    &&& o.comfort_label is None
    &&& o.weather_icon is None
    &&& o.wind_degree is None
}

/// `b` is `a`, apart from its alerts.
pub open spec fn same_but_alerts(a: ObservedWeather, b: ObservedWeather) -> bool {
    b == (ObservedWeather { alerts: b.alerts, ..a })
}

/// `t` is `s` with the parent's alerts taken over. Where the parent has none nothing
/// changes; where nothing was observed, the alerts stand in an observation of their own.
pub open spec fn parents_merged(
    s: WeatherSnapshot,
    parents: Seq<WeatherAlert>,
    t: WeatherSnapshot,
) -> bool {
    if parents.len() == 0 {
        t == s
    } else {
        &&& t == (WeatherSnapshot { real: t.real, ..s })
        &&& t.real matches Some(o)
        &&& match s.real {
            Some(before) => {
                &&& same_but_alerts(before, o)
                &&& o.alerts@ == with_parents(before.alerts@, parents)
            },
            None => {
                &&& nothing_but_alerts(o)
                &&& o.alerts@ == with_parents(Seq::<WeatherAlert>::empty(), parents)
            },
        }
    }
}

/// How many alerts a snapshot has.
pub open spec fn alert_count(s: WeatherSnapshot) -> nat {
    match s.real {
        Some(o) => o.alerts@.len(),
        None => 0,
    }
}

/// Takes over the alerts of the parent station that say something new, and tells
/// whether there were any.
pub fn merge_parent_alerts(snapshot: WeatherSnapshot, parent_alerts: Vec<WeatherAlert>) -> (r: (
    WeatherSnapshot,
    bool,
))
    ensures
        parents_merged(snapshot, parent_alerts@, r.0),
        r.1 == (alert_count(r.0) != alert_count(snapshot)),
{
    if parent_alerts.len() == 0 {
        return (snapshot, false);
    }
    let mut snapshot = snapshot;
    let mut observed = match snapshot.real {
        Some(o) => o,
        None => ObservedWeather {
            publish_time: None,
            info: None,
            temperature: None,
            feel_temperature: None,
            humidity: None,
            rain: None,
            wind_direct: None,
            wind_power: None,
            wind_speed: None,
            sunrise: None,
            sunset: None,
            alerts: Vec::new(),
            temperature_diff: None,
            air_pressure: None,
            comfort_index: None,
            comfort_label: None,
            weather_icon: None,
            wind_degree: None,
        },
    };
    let ghost parents = parent_alerts@;
    let initial_len = observed.alerts.len();
    let mut alerts = observed.alerts;
    let ghost first = alerts@;
    let mut rest = parent_alerts;
    let ghost mut done: int = 0;
    assert(parents.take(0) =~= Seq::<WeatherAlert>::empty());
    assert(parents.skip(0) =~= parents);
    while rest.len() > 0
        invariant
            0 <= done <= parents.len(),
            rest@ == parents.skip(done),
            alerts@ == with_parents(first, parents.take(done)),
        decreases rest@.len(),
    {
        assert(parents.skip(done).len() == parents.len() - done);
        let mut a = rest.remove(0);
        proof {
            assert(a == parents[done]);
            assert(rest@ =~= parents.skip(done + 1));
            assert(parents.take(done + 1).drop_last() =~= parents.take(done));
            assert(parents.take(done + 1).last() == parents[done]);
            done = done + 1;
        }
        if !contains_alert(&alerts, &a) {
            a.inherited = true;
            alerts.push(a);
        }
    }
    assert(parents.skip(done).len() == parents.len() - done);
    assert(parents.take(done) =~= parents);
    let changed: bool = alerts.len() != initial_len;
    observed.alerts = alerts;
    snapshot.real = Some(observed);
    (snapshot, changed)
}

/// Taking over the same alerts again changes nothing: each is known by then.
pub proof fn taking_over_twice_adds_nothing(
    alerts: Seq<WeatherAlert>,
    parents: Seq<WeatherAlert>,
)
    ensures
        with_parents(with_parents(alerts, parents), parents) == with_parents(alerts, parents),
{
    lemma_all_known(alerts, parents);
    lemma_known_add_nothing(with_parents(alerts, parents), parents);
}

/// No alert of the parent is lost: the snapshot has one afterwards with the same text, the
/// same content, the same type and level, and the same province and city.
pub proof fn no_parent_alert_is_lost(
    s: WeatherSnapshot,
    parents: Seq<WeatherAlert>,
    t: WeatherSnapshot,
    i: int,
)
    requires
        parents_merged(s, parents, t),
        0 <= i < parents.len(),
    ensures
        t.real matches Some(o) && exists|k: int|
            0 <= k < o.alerts@.len() && {
                let a = #[trigger] o.alerts@[k];
                let p = parents[i];
                &&& text::opt_text(a.alert) == text::opt_text(p.alert)
                &&& text::opt_text(a.issue_content) == text::opt_text(p.issue_content)
                &&& text::opt_text(a.signal_type) == text::opt_text(p.signal_type)
                &&& text::opt_text(a.signal_level) == text::opt_text(p.signal_level)
                &&& text::opt_text(a.province) == text::opt_text(p.province)
                &&& text::opt_text(a.city) == text::opt_text(p.city)
            },
{
    let before = match s.real {
        Some(o) => o.alerts@,
        None => Seq::<WeatherAlert>::empty(),
    };
    lemma_all_known(before, parents);
    let o = t.real.unwrap();
    assert(known_alert(o.alerts@, parents[i]));
    let k = choose|k: int| 0 <= k < o.alerts@.len() && alike(#[trigger] o.alerts@[k], parents[i]);
    assert(o.alerts@[k].alert == o.alerts@[k].alert);
}

/// The station's own alerts stay, first and unchanged. Each that follows is one of the
/// parent's, marked as taken over and otherwise unchanged.
pub proof fn own_alerts_stay_first(
    s: WeatherSnapshot,
    parents: Seq<WeatherAlert>,
    t: WeatherSnapshot,
)
    requires
        parents_merged(s, parents, t),
    ensures
        s.real matches Some(before) ==> (t.real matches Some(after)
            && before.alerts@.is_prefix_of(after.alerts@)),
        t.real matches Some(after) ==> forall|k: int|
            (if s.real is Some {
                s.real.unwrap().alerts@.len() as int
            } else {
                0
            }) <= k < after.alerts@.len() ==> exists|i: int|
                0 <= i < parents.len() && #[trigger] after.alerts@[k] == (WeatherAlert {
                    inherited: true,
                    ..#[trigger] parents[i]
                }),
{
    let before = match s.real {
        Some(o) => o.alerts@,
        None => Seq::<WeatherAlert>::empty(),
    };
    lemma_taken_over(before, parents);
    if parents.len() == 0 {
        assert(before.take(before.len() as int) =~= before);
    }
}

proof fn lemma_taken_over(alerts: Seq<WeatherAlert>, parents: Seq<WeatherAlert>)
    ensures
        alerts.is_prefix_of(with_parents(alerts, parents)),
        forall|k: int|
            alerts.len() <= k < with_parents(alerts, parents).len() ==> exists|i: int|
                0 <= i < parents.len() && #[trigger] with_parents(alerts, parents)[k] == (
                WeatherAlert { inherited: true, ..#[trigger] parents[i] }),
    decreases parents.len(),
{
    let after = with_parents(alerts, parents);
    if parents.len() == 0 {
        assert(alerts.take(alerts.len() as int) =~= alerts);
    } else {
        let t = parents.drop_last();
        lemma_taken_over(alerts, t);
        let before = with_parents(alerts, t);
        assert(alerts =~= after.take(alerts.len() as int)) by {
            assert(alerts =~= before.take(alerts.len() as int));
            assert forall|k: int| 0 <= k < alerts.len() implies alerts[k] == after[k] by {
                assert(before.take(alerts.len() as int)[k] == before[k]);
            }
        }
        assert forall|k: int| alerts.len() <= k < after.len() implies exists|i: int|
            0 <= i < parents.len() && #[trigger] after[k] == (WeatherAlert {
                inherited: true,
                ..#[trigger] parents[i]
            }) by {
            if k < before.len() {
                assert(after[k] == before[k]);
                let i = choose|i: int|
                    0 <= i < t.len() && before[k] == (WeatherAlert {
                        inherited: true,
                        ..#[trigger] t[i]
                    });
                assert(t[i] == parents[i]);
            } else {
                let i = parents.len() - 1;
                assert(parents[i] == parents.last());
            }
        }
    }
}

/// No alert is taken over that says what one before it says: in text, content, type,
/// level, province and city.
pub proof fn taken_over_alerts_are_new(
    alerts: Seq<WeatherAlert>,
    parents: Seq<WeatherAlert>,
    j: int,
    k: int,
)
    requires
        alerts.len() <= k < with_parents(alerts, parents).len(),
        0 <= j < k,
    ensures
        ({
            let a = with_parents(alerts, parents)[j];
            let b = with_parents(alerts, parents)[k];
            ||| text::opt_text(a.alert) != text::opt_text(b.alert)
            ||| text::opt_text(a.issue_content) != text::opt_text(b.issue_content)
            ||| text::opt_text(a.signal_type) != text::opt_text(b.signal_type)
            ||| text::opt_text(a.signal_level) != text::opt_text(b.signal_level)
            ||| text::opt_text(a.province) != text::opt_text(b.province)
            ||| text::opt_text(a.city) != text::opt_text(b.city)
        }),
    decreases parents.len(),
{
    let after = with_parents(alerts, parents);
    let before = with_parents(alerts, parents.drop_last());
    if k < before.len() {
        taken_over_alerts_are_new(alerts, parents.drop_last(), j, k);
        assert(after[k] == before[k] && after[j] == before[j]);
    } else {
        assert(after[j] == before[j]);
        assert(!alike(before[j], parents.last()));
    }
}

proof fn lemma_all_known(alerts: Seq<WeatherAlert>, parents: Seq<WeatherAlert>)
    ensures
        forall|i: int|
            0 <= i < parents.len() ==> known_alert(
                with_parents(alerts, parents),
                #[trigger] parents[i],
            ),
    decreases parents.len(),
{
    if parents.len() > 0 {
        let t = parents.drop_last();
        lemma_all_known(alerts, t);
        let before = with_parents(alerts, t);
        let after = with_parents(alerts, parents);
        assert forall|i: int| 0 <= i < parents.len() implies known_alert(
            after,
            #[trigger] parents[i],
        ) by {
            if i < t.len() {
                assert(known_alert(before, t[i]));
                let k = choose|k: int| 0 <= k < before.len() && alike(#[trigger] before[k], t[i]);
                assert(after[k] == before[k]);
            } else if !known_alert(before, parents.last()) {
                assert(alike(after[before.len() as int], parents.last()));
            }
        }
    }
}

proof fn lemma_known_add_nothing(alerts: Seq<WeatherAlert>, parents: Seq<WeatherAlert>)
    requires
        forall|i: int| 0 <= i < parents.len() ==> known_alert(alerts, #[trigger] parents[i]),
    ensures
        with_parents(alerts, parents) == alerts,
    decreases parents.len(),
{
    if parents.len() > 0 {
        let t = parents.drop_last();
        assert forall|i: int| 0 <= i < t.len() implies known_alert(alerts, #[trigger] t[i]) by {
            assert(t[i] == parents[i]);
        }
        lemma_known_add_nothing(alerts, t);
        assert(known_alert(alerts, parents[parents.len() - 1]));
    }
}

/// The cached snapshot of another station counts as fresh.
pub open spec fn fresh(s: StoredSnapshot, p: FreshnessPolicy) -> bool {
    clock::cache_fresh(
        s.fetched_at_unix_ms as int,
        p.now_unix_ms as int,
        p.weather_ttl_seconds as int,
        p.timezone@,
    )
}

/// Why the freshness of a cached snapshot cannot be told, if it cannot.
pub open spec fn freshness_fault(s: StoredSnapshot, p: FreshnessPolicy) -> Option<Seq<char>> {
    if !clock::young(
        s.fetched_at_unix_ms as int,
        p.now_unix_ms as int,
        p.weather_ttl_seconds as int,
    ) {
        None
    } else if clock::date_fault(s.fetched_at_unix_ms as int, p.timezone@) is Some {
        clock::date_fault(s.fetched_at_unix_ms as int, p.timezone@)
    } else {
        clock::date_fault(p.now_unix_ms as int, p.timezone@)
    }
}

fn is_fresh(s: &StoredSnapshot, p: &FreshnessPolicy) -> (r: Result<bool, String>)
    ensures
        match r {
            Ok(f) => freshness_fault(*s, *p) is None && f == fresh(*s, *p),
            Err(m) => freshness_fault(*s, *p) == Some(m@),
        },
{
    clock::cached_snapshot_is_fresh(
        s.fetched_at_unix_ms,
        p.now_unix_ms,
        p.weather_ttl_seconds,
        p.timezone.as_str(),
    )
}

/// The air quality that another station's cached snapshot lends: there is one only
/// while that snapshot is fresh.
pub fn lent_air(stored: Option<StoredSnapshot>, policy: &FreshnessPolicy) -> (r: Result<
    Option<AirQuality>,
    String,
>)
    ensures
        match r {
            Err(m) => stored matches Some(s) && freshness_fault(s, *policy) == Some(m@),
            Ok(air) => {
                &&& stored matches Some(s) ==> freshness_fault(s, *policy) is None
                &&& air == match stored {
                    Some(s) => if fresh(s, *policy) {
                        s.snapshot.air
                    } else {
                        None
                    },
                    None => None,
                }
            },
        },
{
    match stored {
        None => Ok(None),
        Some(s) => match is_fresh(&s, policy) {
            Err(m) => Err(m),
            Ok(true) => Ok(s.snapshot.air),
            Ok(false) => Ok(None),
        },
    }
}

/// The alerts that another station's cached snapshot lends, while it is fresh.
pub open spec fn lendable_alerts(
    stored: Option<StoredSnapshot>,
    policy: FreshnessPolicy,
) -> Seq<WeatherAlert> {
    match stored {
        Some(s) => if fresh(s, policy) {
            match s.snapshot.real {
                Some(o) => o.alerts@,
                None => Seq::<WeatherAlert>::empty(),
            }
        } else {
            Seq::<WeatherAlert>::empty()
        },
        None => Seq::<WeatherAlert>::empty(),
    }
}

/// The alerts that another station's cached snapshot lends.
pub fn lent_alerts(stored: Option<StoredSnapshot>, policy: &FreshnessPolicy) -> (r: Result<
    Vec<WeatherAlert>,
    String,
>)
    ensures
        match r {
            Err(m) => stored matches Some(s) && freshness_fault(s, *policy) == Some(m@),
            Ok(alerts) => {
                &&& stored matches Some(s) ==> freshness_fault(s, *policy) is None
                &&& alerts@ == lendable_alerts(stored, *policy)
            },
        },
{
    match stored {
        None => Ok(Vec::new()),
        Some(s) => match is_fresh(&s, policy) {
            Err(m) => Err(m),
            Ok(true) => match s.snapshot.real {
                Some(o) => Ok(o.alerts),
                None => Ok(Vec::new()),
            },
            Ok(false) => Ok(Vec::new()),
        },
    }
}

/// A finite number.
pub open spec fn finite_only(r: Option<Reading>) -> Option<Reading> {
    match r {
        Some(v) => if v.finite() {
            Some(v)
        } else {
            None
        },
        None => None,
    }
}

fn keep_finite(r: Option<Reading>) -> (k: Option<Reading>)
    ensures
        k == finite_only(r),
{
    match r {
        Some(v) => if v.is_finite() {
            Some(v)
        } else {
            None
        },
        None => None,
    }
}

/// The high that the forecast has for the date.
pub open spec fn forecast_high(t: Temperatures, date: CivilDate) -> Option<Reading> {
    match history::forecast_of(t.forecast, date) {
        Some(i) => finite_only(t.forecast->0@[i].high),
        None => None,
    }
}

/// The high that the chart has for the date.
pub open spec fn charted_high(t: Temperatures, date: CivilDate) -> Option<Reading> {
    match history::chart_of(t.charts@, date) {
        Some(i) => finite_only(t.charts@[i].max),
        None => None,
    }
}

/// The high of the date: as forecast, else as charted.
pub open spec fn daily_high(t: Temperatures, date: CivilDate) -> Option<Reading> {
    if forecast_high(t, date) is Some {
        forecast_high(t, date)
    } else {
        charted_high(t, date)
    }
}

/// The high of the date.
pub fn snapshot_daily_high(t: &Temperatures, today: CivilDate) -> (r: Option<Reading>)
    requires
        today.valid(),
    ensures
        r == daily_high(*t, today),
{
    let forecast = match (history::forecast_index(&t.forecast, today), &t.forecast) {
        (Some(i), Some(days)) => keep_finite(days[i].high),
        _ => None,
    };
    match forecast {
        Some(v) => Some(v),
        None => match history::chart_index(&t.charts, today) {
            Some(i) => keep_finite(t.charts[i].max),
            None => None,
        },
    }
}

/// The high of the present day, and where the snapshot lacks it.
#[derive(Clone, Copy, Debug, PartialEq, Eq, Structural)]
pub struct DailyHigh {
    pub high: Reading,
    pub forecast_day: Option<usize>,
    pub chart: Option<usize>,
}

/// Where the high of the present day is to be filled in: the day's forecast and the
/// day's chart, where they are there and have none. Nothing, unless the kept snapshot is
/// of the present day and one of the two snapshots has a high.
pub open spec fn missing_high(
    current: Temperatures,
    stored_date: Seq<char>,
    stored: Temperatures,
    today: Seq<char>,
) -> Option<(Reading, Option<int>, Option<int>)> {
    if stored_date != today {
        None
    } else {
        match dates::full_date(today) {
            None => None,
            Some((year, month, day)) => {
                let date = CivilDate { year, month, day };
                let high = if daily_high(current, date) is Some {
                    daily_high(current, date)
                } else {
                    daily_high(stored, date)
                };
                match high {
                    None => None,
                    Some(h) => Some(
                        (
                            h,
                            if forecast_high(current, date) is None {
                                history::forecast_of(current.forecast, date)
                            } else {
                                None
                            },
                            if charted_high(current, date) is None {
                                history::chart_of(current.charts@, date)
                            } else {
                                None
                            },
                        ),
                    ),
                }
            },
        }
    }
}

/// The place as a number.
pub open spec fn place(i: Option<usize>) -> Option<int> {
    match i {
        Some(i) => Some(i as int),
        None => None,
    }
}

/// Finds where the high of the present day is to be filled in.
pub fn plan_daily_high(
    current: &Temperatures,
    stored_date: &str,
    stored: &Temperatures,
    today: &str,
) -> (r: Option<DailyHigh>)
    ensures
        match r {
            None => missing_high(*current, stored_date@, *stored, today@) is None,
            Some(d) => {
                &&& missing_high(*current, stored_date@, *stored, today@) == Some(
                    (d.high, place(d.forecast_day), place(d.chart)),
                )
                &&& d.forecast_day matches Some(i) ==> current.forecast is Some && i
                    < current.forecast->0@.len()
                &&& d.chart matches Some(i) ==> i < current.charts@.len()
            },
        },
{
    if !text::same(stored_date, today) {
        return None;
    }
    let date = match dates::parse_full_date(today) {
        Some(d) => d,
        None => {
            return None;
        },
    };
    let high = match snapshot_daily_high(current, date) {
        Some(h) => h,
        None => match snapshot_daily_high(stored, date) {
            Some(h) => h,
            None => {
                return None;
            },
        },
    };
    let forecast_day = match (history::forecast_index(&current.forecast, date), &current.forecast) {
        (Some(i), Some(days)) => if keep_finite(days[i].high).is_none() {
            Some(i)
        } else {
            None
        },
        _ => None,
    };
    let chart = match history::chart_index(&current.charts, date) {
        Some(i) => if keep_finite(current.charts[i].max).is_none() {
            Some(i)
        } else {
            None
        },
        None => None,
    };
    Some(DailyHigh { high, forecast_day, chart })
}

/// The plan points into the snapshot.
pub open spec fn points_into(d: DailyHigh, s: WeatherSnapshot) -> bool {
    &&& d.forecast_day matches Some(i) ==> s.predict is Some && i < s.predict->0.days@.len()
    &&& d.chart matches Some(i) ==> i < s.tempchart@.len()
}

/// Whether the plan points into the snapshot.
pub fn plan_fits(d: &DailyHigh, snapshot: &WeatherSnapshot) -> (r: bool)
    ensures
        r == points_into(*d, *snapshot),
{
    let forecast_fits = match d.forecast_day {
        Some(i) => match &snapshot.predict {
            Some(p) => i < p.days.len(),
            None => false,
        },
        None => true,
    };
    let chart_fits = match d.chart {
        Some(i) => i < snapshot.tempchart.len(),
        None => true,
    };
    forecast_fits && chart_fits
}

/// A plan that was made for a snapshot points into it.
pub proof fn plans_fit_their_snapshot(
    s: WeatherSnapshot,
    readings: Seq<(Option<Reading>, Option<Reading>)>,
    t: Temperatures,
    stored_date: Seq<char>,
    stored: Temperatures,
    today: Seq<char>,
    d: DailyHigh,
)
    requires
        history::temperatures_from(t, s, readings),
        missing_high(t, stored_date, stored, today) == Some(
            (d.high, place(d.forecast_day), place(d.chart)),
        ),
    ensures
        points_into(d, s),
{
    let (year, month, day) = dates::full_date(today)->0;
    let date = CivilDate { year, month, day };
    history::lemma_chart_in_range(t.charts@, 0, date);
    match t.forecast {
        Some(days) => {
            history::lemma_forecast_in_range(days@, 0, date);
        },
        None => {},
    }
}

/// `t` is `s` with the high filled in where the plan says, in the forecast as a text.
pub open spec fn high_filled(
    s: WeatherSnapshot,
    d: DailyHigh,
    high_text: Seq<char>,
    t: WeatherSnapshot,
) -> bool {
    &&& t == (WeatherSnapshot { predict: t.predict, tempchart: t.tempchart, ..s })
    &&& match d.forecast_day {
        None => t.predict == s.predict,
        Some(i) => {
            &&& t.predict matches Some(p)
            &&& p == (ForecastReport { days: p.days, ..s.predict->0 })
            &&& p.days@.len() == s.predict->0.days@.len()
            &&& forall|k: int|
                0 <= k < p.days@.len() && k != i ==> #[trigger] p.days@[k]
                    == s.predict->0.days@[k]
            &&& p.days@[i as int] == (ForecastDay {
                day_temperature: p.days@[i as int].day_temperature,
                ..s.predict->0.days@[i as int]
            })
            &&& text::opt_text(p.days@[i as int].day_temperature) == Some(high_text)
        },
    }
    &&& t.tempchart@ == match d.chart {
        None => s.tempchart@,
        Some(i) => s.tempchart@.update(
            i as int,
            TemperatureChart { max_temperature: Some(d.high), ..s.tempchart@[i as int] },
        ),
    }
}

fn fill_forecast(report: ForecastReport, i: usize, high_text: String) -> (r: ForecastReport)
    requires
        i < report.days@.len(),
    ensures
        r == (ForecastReport { days: r.days, ..report }),
        r.days@ == report.days@.update(
            i as int,
            ForecastDay { day_temperature: Some(high_text), ..report.days@[i as int] },
        ),
{
    let mut r = report;
    let mut days = r.days;
    let mut day = days.remove(i);
    day.day_temperature = Some(high_text);
    days.insert(i, day);
    assert(days@ =~= report.days@.update(
        i as int,
        ForecastDay { day_temperature: Some(high_text), ..report.days@[i as int] },
    ));
    r.days = days;
    r
}

/// Fills the high of the present day in where the plan says.
pub fn fill_daily_high(snapshot: WeatherSnapshot, d: DailyHigh, high_text: &str) -> (t:
    WeatherSnapshot)
    requires
        points_into(d, snapshot),
    ensures
        high_filled(snapshot, d, high_text@, t),
{
    let mut t = snapshot;
    match d.forecast_day {
        None => {},
        Some(i) => {
            let report = t.predict;
            t.predict = match report {
                Some(p) => Some(fill_forecast(p, i, high_text.to_owned())),
                None => None,
            };
        },
    }
    match d.chart {
        None => {},
        Some(i) => {
            let mut charts = t.tempchart;
            let mut chart = charts.remove(i);
            chart.max_temperature = Some(d.high);
            charts.insert(i, chart);
            assert(charts@ =~= snapshot.tempchart@.update(
                i as int,
                TemperatureChart {
                    max_temperature: Some(d.high),
                    ..snapshot.tempchart@[i as int]
                },
            ));
            t.tempchart = charts;
        },
    }
    t
}

/// A snapshot from the provider on its way to the cache: without its debug payload,
/// with the warnings so far.
#[derive(Debug)]
pub struct FetchedSnapshot {
    pub snapshot: WeatherSnapshot,
    pub debug: Option<DebugPayload>,
    pub warnings: Vec<String>,
}

/// What was found out about the high of the present day: a plan with the text of the
/// high, nothing, or why it could not be told.
pub type DailyHighOutcome = Result<Option<(DailyHigh, String)>, String>;

/// The warnings after the high of the present day was looked for.
pub open spec fn high_warned(w: Seq<Seq<char>>, outcome: DailyHighOutcome) -> Seq<Seq<char>> {
    match outcome {
        Ok(_) => w,
        Err(m) => w.push("daily high fallback failed: "@ + m@),
    }
}

/// `s` is the fetched snapshot as it goes to the cache: with the station completed, the
/// high filled in, and without debug payload.
pub open spec fn prepared_from(
    fetched: WeatherSnapshot,
    requested: ProviderStation,
    outcome: DailyHighOutcome,
    s: WeatherSnapshot,
) -> bool {
    let base = WeatherSnapshot {
        station: Some(station::merged(fetched.station, requested)),
        debug: None,
        ..fetched
    };
    match outcome {
        Ok(Some((d, high_text))) => high_filled(base, d, high_text@, s),
        _ => s == base,
    }
}

fn note(warnings: &mut Vec<String>, prefix: &str, message: &str)
    ensures
        text::texts(final(warnings)@) == text::texts(old(warnings)@).push(prefix@ + message@),
{
    warnings.push(text::cat(prefix, message));
    assert(text::texts(warnings@) =~= text::texts(old(warnings)@).push(prefix@ + message@));
}

/// Prepares the provider's answer for the cache.
pub fn prepare_fetched(
    fetch: WeatherFetch,
    requested: &ProviderStation,
    high: DailyHighOutcome,
) -> (r: FetchedSnapshot)
    requires
        high matches Ok(Some(p)) ==> points_into(p.0, fetch.snapshot),
    ensures
        prepared_from(fetch.snapshot, *requested, high, r.snapshot),
        r.debug == fetch.snapshot.debug,
        text::texts(r.warnings@) == high_warned(text::texts(fetch.warnings@), high),
{
    let mut snapshot = fetch.snapshot;
    let mut warnings = fetch.warnings;
    let debug = snapshot.debug;
    snapshot.debug = None;
    let reported = snapshot.station;
    snapshot.station = Some(station::merge_station(reported, requested));
    match high {
        Ok(Some((d, high_text))) => {
            snapshot = fill_daily_high(snapshot, d, high_text.as_str());
        },
        Ok(None) => {},
        Err(m) => {
            note(&mut warnings, "daily high fallback failed: ", m.as_str());
        },
    }
    FetchedSnapshot { snapshot, debug, warnings }
}

/// The snapshot with the lent air quality, where it has none of its own.
pub open spec fn with_air(s: WeatherSnapshot, air: Option<AirQuality>) -> WeatherSnapshot {
    if s.air is Some {
        s
    } else {
        WeatherSnapshot { air, ..s }
    }
}

/// Completes the air quality of a snapshot that has none.
pub fn apply_air(snapshot: WeatherSnapshot, air: Option<AirQuality>) -> (r: WeatherSnapshot)
    ensures
        r == with_air(snapshot, air),
{
    let mut snapshot = snapshot;
    if snapshot.air.is_none() {
        snapshot.air = air;
    }
    snapshot
}

/// The warnings after the snapshot was kept and the air quality was looked for.
pub open spec fn kept_warned(
    w: Seq<Seq<char>>,
    persisted: Result<(), String>,
    air: Result<Option<AirQuality>, String>,
) -> Seq<Seq<char>> {
    let w1 = match persisted {
        Ok(_) => w,
        Err(m) => w.push("cache write failed: "@ + m@),
    };
    match air {
        Ok(_) => w1,
        Err(m) => w1.push("municipality air fallback failed: "@ + m@),
    }
}

/// `t` is the kept snapshot as it is served: with its debug payload again, with lent
/// air quality and the parent's alerts.
pub open spec fn served_from(
    f: FetchedSnapshot,
    air: Result<Option<AirQuality>, String>,
    parents: Seq<WeatherAlert>,
    t: WeatherSnapshot,
) -> bool {
    let base = WeatherSnapshot { debug: f.debug, ..f.snapshot };
    parents_merged(
        match air {
            Ok(air) => with_air(base, air),
            Err(_) => base,
        },
        parents,
        t,
    )
}

/// Completes the snapshot after it was kept. A failure to keep it, or to find the air
/// quality, is only a warning.
pub fn complete_fetched(
    fetched: FetchedSnapshot,
    persisted: Result<(), String>,
    air: Result<Option<AirQuality>, String>,
    parent_alerts: Vec<WeatherAlert>,
) -> (r: WeatherFetch)
    ensures
        served_from(fetched, air, parent_alerts@, r.snapshot),
        text::texts(r.warnings@) == kept_warned(text::texts(fetched.warnings@), persisted, air),
{
    let mut snapshot = fetched.snapshot;
    let mut warnings = fetched.warnings;
    snapshot.debug = fetched.debug;
    match persisted {
        Ok(_) => {},
        Err(m) => {
            note(&mut warnings, "cache write failed: ", m.as_str());
        },
    }
    match air {
        Ok(air) => {
            snapshot = apply_air(snapshot, air);
        },
        Err(m) => {
            note(&mut warnings, "municipality air fallback failed: ", m.as_str());
        },
    }
    let (snapshot, _) = merge_parent_alerts(snapshot, parent_alerts);
    WeatherFetch { snapshot, warnings }
}

/// The warnings after the fetch was logged.
pub open spec fn logged_warned(w: Seq<Seq<char>>, logged: Result<(), String>) -> Seq<Seq<char>> {
    match logged {
        Ok(_) => w,
        Err(m) => w.push("fetch log write failed: "@ + m@),
    }
}

/// `d` is the debug payload with all warnings.
pub open spec fn debug_with(
    before: Option<DebugPayload>,
    warnings: Seq<Seq<char>>,
    d: Option<DebugPayload>,
) -> bool {
    match before {
        None => d is None,
        Some(b) => {
            &&& d matches Some(p)
            &&& p == (DebugPayload { warnings: p.warnings, ..b })
            &&& text::texts(p.warnings@) == warnings
        },
    }
}

/// Finishes a fetch after it was logged: the snapshot that is served, and what is
/// published about the fetch.
pub fn finish_fetched(fetch: WeatherFetch, logged: Result<(), String>) -> (r: (
    WeatherSnapshot,
    Option<String>,
))
    ensures
        r.0 == (WeatherSnapshot { debug: r.0.debug, ..fetch.snapshot }),
        debug_with(
            fetch.snapshot.debug,
            logged_warned(text::texts(fetch.warnings@), logged),
            r.0.debug,
        ),
        text::opt_text(r.1) == summary(logged_warned(text::texts(fetch.warnings@), logged)),
{
    let mut snapshot = fetch.snapshot;
    let mut warnings = fetch.warnings;
    match logged {
        Ok(_) => {},
        Err(m) => {
            note(&mut warnings, "fetch log write failed: ", m.as_str());
        },
    }
    let debug = snapshot.debug;
    snapshot.debug = match debug {
        Some(d) => {
            let mut d = d;
            d.warnings = text::copy_all(&warnings);
            Some(d)
        },
        None => None,
    };
    let message = warning_summary(&warnings);
    (snapshot, message)
}

/// What is published about a fetch that failed.
pub fn failure_message(error: &str, logged: Result<(), String>) -> (m: String)
    ensures
        m@ == match logged {
            Ok(_) => error@,
            Err(e) => error@ + "; fetch log write failed: "@ + e@,
        },
{
    match logged {
        Ok(_) => error.to_owned(),
        Err(e) => {
            let mut m = text::cat(error, "; fetch log write failed: ");
            m.append(e.as_str());
            m
        },
    }
}

/// `t` is the kept snapshot as it is served in place of one that could not be fetched:
/// marked as stale, with the station completed, with lent air quality and alerts.
pub open spec fn stale_from(
    kept: WeatherSnapshot,
    requested: ProviderStation,
    air: Option<AirQuality>,
    parents: Seq<WeatherAlert>,
    t: WeatherSnapshot,
) -> bool {
    parents_merged(
        with_air(
            WeatherSnapshot {
                station: Some(station::merged(kept.station, requested)),
                stale: true,
                ..kept
            },
            air,
        ),
        parents,
        t,
    )
}

/// What is served where the provider failed: the kept snapshot, marked as stale, where
/// there is one; else the failure stands.
pub fn stale_fallback(
    error: &str,
    cached: Result<Option<StoredSnapshot>, String>,
    requested: &ProviderStation,
    air: Option<AirQuality>,
    parent_alerts: Vec<WeatherAlert>,
) -> (r: Result<WeatherSnapshot, String>)
    ensures
        match cached {
            Ok(Some(stored)) => r matches Ok(t) && stale_from(
                stored.snapshot,
                *requested,
                air,
                parent_alerts@,
                t,
            ),
            Ok(None) => r matches Err(m) && m@ == error@,
            Err(e) => r matches Err(m) && m@ == "stale cache lookup failed: "@ + e@ + ": "@
                + error@,
        },
{
    match cached {
        Ok(Some(stored)) => {
            let mut snapshot = stored.snapshot;
            let reported = snapshot.station;
            snapshot.station = Some(station::merge_station(reported, requested));
            snapshot.stale = true;
            let snapshot = apply_air(snapshot, air);
            let (snapshot, _) = merge_parent_alerts(snapshot, parent_alerts);
            Ok(snapshot)
        },
        Ok(None) => Err(error.to_owned()),
        Err(e) => {
            let mut m = text::cat("stale cache lookup failed: ", e.as_str());
            m.append(": ");
            m.append(error);
            Err(m)
        },
    }
}

/// How a refresh ended.
#[derive(Debug, PartialEq, Eq)]
pub enum RefreshTerminal {
    Success,
    Stale,
    Failure(String),
}

/// How a refresh ended, by what was served.
pub fn refresh_terminal(result: &Result<WeatherSnapshot, String>) -> (r: RefreshTerminal)
    ensures
        match *result {
            Ok(s) => r == if s.stale {
                RefreshTerminal::Stale
            } else {
                RefreshTerminal::Success
            },
            Err(m) => r == RefreshTerminal::Failure(m),
        },
{
    match result {
        Ok(s) => if s.stale {
            RefreshTerminal::Stale
        } else {
            RefreshTerminal::Success
        },
        Err(m) => RefreshTerminal::Failure(m.clone()),
    }
}

/// A refresh under way: it is announced once and its end is told exactly once, also
/// where it is given up.
#[derive(Debug)]
pub struct RefreshCompletion {
    unified_uuid: Option<String>,
    armed: bool,
}

impl RefreshCompletion {
    /// The station that the refresh is about, as far as it is known.
    pub closed spec fn uuid(self) -> Option<Seq<char>> {
        text::opt_text(self.unified_uuid)
    }

    /// The end has not been told yet.
    pub closed spec fn pending(self) -> bool {
        self.armed
    }

    /// Begins a refresh; a blank request names no station.
    pub fn start(requested_uuid: &str) -> (r: RefreshCompletion)
        ensures
            r.pending(),
            r.uuid() == if text::blank(requested_uuid@) {
                None
            } else {
                Some(requested_uuid@)
            },
    {
        RefreshCompletion {
            unified_uuid: if text::is_blank(requested_uuid) {
                None
            } else {
                Some(requested_uuid.to_owned())
            },
            armed: true,
        }
    }

    /// The station that the refresh is about.
    pub fn unified_uuid(&self) -> (r: Option<&str>)
        ensures
            text::opt_str(r) == self.uuid(),
    {
        match &self.unified_uuid {
            Some(u) => Some(u.as_str()),
            None => None,
        }
    }

    /// Names the station.
    pub fn set_unified_uuid(&mut self, unified_uuid: &str)
        ensures
            final(self).uuid() == Some(unified_uuid@),
            final(self).pending() == old(self).pending(),
    {
        self.unified_uuid = Some(unified_uuid.to_owned());
    }

    /// Tells the end, unless it was told before.
    pub fn complete(&mut self, outcome: RefreshTerminal) -> (r: Option<RefreshTerminal>)
        ensures
            !final(self).pending(),
            final(self).uuid() == old(self).uuid(),
            r == if old(self).pending() {
                Some(outcome)
            } else {
                None
            },
    {
        if self.armed {
            self.armed = false;
            Some(outcome)
        } else {
            None
        }
    }

    /// Tells the end of a refresh that is given up, unless it was told before.
    pub fn abandon(&mut self) -> (r: Option<RefreshTerminal>)
        ensures
            !final(self).pending(),
            final(self).uuid() == old(self).uuid(),
            match r {
                Some(t) => {
                    &&& old(self).pending()
                    &&& t matches RefreshTerminal::Failure(m)
                    &&& m@ == "refresh cancelled before completion"@
                },
                None => !old(self).pending(),
            },
    {
        self.complete(RefreshTerminal::Failure("refresh cancelled before completion".to_owned()))
    }
}

/// A request for the weather at a station.
#[derive(Debug)]
pub struct WeatherRequest {
    pub unified_uuid: String,
    pub refresh: bool,
    pub include_debug: bool,
}

/// What follows in the handling of a weather request.
#[derive(Debug)]
pub enum WeatherStep {
    /// Look up what is kept for the station.
    LookUpCache,
    /// Serve this snapshot from the cache, with lent air quality and alerts.
    ServeCached(WeatherSnapshot),
    /// Fetch from the provider; requests for the same station and the same kind of
    /// answer share one fetch.
    Fetch,
    /// Answer with this failure.
    Fail(String),
}

/// What follows once the station is known: a plain request is answered from the cache
/// where it can be.
pub fn after_station(request: &WeatherRequest) -> (r: WeatherStep)
    ensures
        r == if !request.refresh && !request.include_debug {
            WeatherStep::LookUpCache
        } else {
            WeatherStep::Fetch
        },
{
    if !request.refresh && !request.include_debug {
        WeatherStep::LookUpCache
    } else {
        WeatherStep::Fetch
    }
}

/// What follows once the cache was looked up: a fresh snapshot is served with its
/// station completed, anything else is fetched.
pub fn after_cache(
    cached: Result<Option<StoredSnapshot>, String>,
    requested: &ProviderStation,
    policy: &FreshnessPolicy,
) -> (r: WeatherStep)
    ensures
        match cached {
            Err(m) => r == WeatherStep::Fail(m),
            Ok(None) => r is Fetch,
            Ok(Some(s)) => match freshness_fault(s, *policy) {
                Some(m) => r matches WeatherStep::Fail(e) && e@ == m,
                None => if fresh(s, *policy) {
                    r == WeatherStep::ServeCached(
                        (WeatherSnapshot {
                            station: Some(station::merged(s.snapshot.station, *requested)),
                            ..s.snapshot
                        }),
                    )
                } else {
                    r is Fetch
                },
            },
        },
{
    match cached {
        Err(m) => WeatherStep::Fail(m),
        Ok(None) => WeatherStep::Fetch,
        Ok(Some(s)) => match is_fresh(&s, policy) {
            Err(m) => WeatherStep::Fail(m),
            Ok(false) => WeatherStep::Fetch,
            Ok(true) => {
                let mut snapshot = s.snapshot;
                let reported = snapshot.station;
                snapshot.station = Some(station::merge_station(reported, requested));
                WeatherStep::ServeCached(snapshot)
            },
        },
    }
}

/// Completes a cached snapshot that is served; what cannot be lent is left out.
pub fn serve_cached(
    snapshot: WeatherSnapshot,
    air: Option<AirQuality>,
    parent_alerts: Vec<WeatherAlert>,
) -> (r: WeatherSnapshot)
    ensures
        parents_merged(with_air(snapshot, air), parent_alerts@, r),
{
    let snapshot = apply_air(snapshot, air);
    let (snapshot, _) = merge_parent_alerts(snapshot, parent_alerts);
    snapshot
}

/// A snapshot that the provider delivered is never served as stale, whatever failed
/// besides.
pub proof fn fetched_is_not_stale(
    fetched: WeatherSnapshot,
    requested: ProviderStation,
    high: DailyHighOutcome,
    f: FetchedSnapshot,
    air: Result<Option<AirQuality>, String>,
    parents: Seq<WeatherAlert>,
    served: WeatherSnapshot,
)
    requires
        !fetched.stale,
        prepared_from(fetched, requested, high, f.snapshot),
        served_from(f, air, parents, served),
    ensures
        !served.stale,
{
}

/// A snapshot that stands in for a failed fetch is always marked as stale.
pub proof fn fallback_is_stale(
    kept: WeatherSnapshot,
    requested: ProviderStation,
    air: Option<AirQuality>,
    parents: Seq<WeatherAlert>,
    served: WeatherSnapshot,
)
    requires
        stale_from(kept, requested, air, parents, served),
    ensures
        served.stale,
{
}

/// Warnings are told one after the other, parted by semicolons; without a warning there is
/// nothing to tell.
pub proof fn warnings_are_told_in_turn(warnings: Seq<Seq<char>>, more: Seq<char>)
    ensures
        summary(Seq::<Seq<char>>::empty()) is None,
        summary(seq![more]) == Some(more),
        warnings.len() > 0 ==> summary(warnings.push(more)) == Some(
            summary(warnings).unwrap() + "; "@ + more,
        ),
{
    text::joining_separates(warnings, "; "@, more);
}

/// A place in a municipality borrows the air quality of the municipality; the municipality
/// itself, and a place elsewhere, borrow none.
pub proof fn municipalities_lend_their_air(base: Seq<char>, province: Seq<char>, city: Seq<char>)
    ensures
        base.len() > 0 && city != base && city != base + "市"@ ==> air_parent(
            base + "市"@,
            city,
        ) == Some(base + "-"@ + base + "市"@),
        air_parent(base + "市"@, base) is None,
        air_parent(base + "市"@, base + "市"@) is None,
        !"市"@.is_suffix_of(province) ==> air_parent(province, city) is None,
{
    station::administrative_endings_go(base);
    text::occurrences_are_parts(province, "市"@, base, base);
    assert(base + "-"@ + (base + "市"@) =~= base + "-"@ + base + "市"@);
}

/// A kept snapshot is fresh until its time to live has passed, and on the local date of its
/// fetch only. Where it is too old its dates do not matter.
pub proof fn kept_snapshots_are_fresh_for_a_while(s: StoredSnapshot, p: FreshnessPolicy)
    requires
        s.fetched_at_unix_ms <= p.now_unix_ms,
        p.now_unix_ms - s.fetched_at_unix_ms < i64::MAX,
    ensures
        fresh(s, p) <==> {
            &&& p.now_unix_ms < s.fetched_at_unix_ms + p.weather_ttl_seconds * 1000
            &&& clock::zoned_date(s.fetched_at_unix_ms, p.timezone@) == clock::zoned_date(
                p.now_unix_ms,
                p.timezone@,
            )
        },
        p.now_unix_ms >= s.fetched_at_unix_ms + p.weather_ttl_seconds * 1000 ==> freshness_fault(
            s,
            p,
        ) is None,
        p.now_unix_ms < s.fetched_at_unix_ms + p.weather_ttl_seconds * 1000 ==> (freshness_fault(
            s,
            p,
        ) is None <==> clock::date_fault(s.fetched_at_unix_ms as int, p.timezone@) is None
            && clock::date_fault(p.now_unix_ms as int, p.timezone@) is None),
{
}

/// Another station lends the alerts of its kept snapshot, all of them, while that is fresh,
/// and none otherwise.
pub proof fn alerts_are_lent_while_fresh(s: StoredSnapshot, p: FreshnessPolicy)
    ensures
        lendable_alerts(None, p).len() == 0,
        !fresh(s, p) ==> lendable_alerts(Some(s), p).len() == 0,
        fresh(s, p) && s.snapshot.real is None ==> lendable_alerts(Some(s), p).len() == 0,
        fresh(s, p) && s.snapshot.real is Some ==> lendable_alerts(Some(s), p)
            == s.snapshot.real.unwrap().alerts@,
{
}

/// The high of a day is that of its forecast where that is a finite number, else that of its
/// chart where that is one.
pub proof fn highs_are_forecast_or_charted(t: Temperatures, date: CivilDate, i: int, k: int)
    ensures
        daily_high(t, date) matches Some(h) ==> h.finite(),
        history::forecast_of(t.forecast, date) == Some(i) && (t.forecast.unwrap()@[i].high matches
            Some(h) && h.finite()) ==> daily_high(t, date) == t.forecast.unwrap()@[i].high,
        (history::forecast_of(t.forecast, date) is None || (history::forecast_of(t.forecast, date)
            == Some(i) && !(t.forecast.unwrap()@[i].high matches Some(h) && h.finite())))
            && history::chart_of(t.charts@, date) == Some(k) && (t.charts@[k].max matches Some(h)
            && h.finite()) ==> daily_high(t, date) == t.charts@[k].max,
        (history::forecast_of(t.forecast, date) is None || (history::forecast_of(t.forecast, date)
            == Some(i) && !(t.forecast.unwrap()@[i].high matches Some(h) && h.finite())))
            && (history::chart_of(t.charts@, date) is None || (history::chart_of(t.charts@, date)
            == Some(k) && !(t.charts@[k].max matches Some(h) && h.finite()))) ==> daily_high(
            t,
            date,
        ) is None,
{
}

/// The high of the present day is filled in only where the kept snapshot is of that day: the
/// high of the new snapshot where it has one, else that of the kept one. It goes to the
/// day's forecast and to the day's chart of the new snapshot, and only where these lack a
/// finite one.
pub proof fn highs_are_filled_in_where_they_lack(
    current: Temperatures,
    stored_date: Seq<char>,
    stored: Temperatures,
    today: Seq<char>,
    date: CivilDate,
)
    requires
        dates::full_date(today) == Some((date.year, date.month, date.day)),
    ensures
        stored_date != today ==> missing_high(current, stored_date, stored, today) is None,
        stored_date == today ==> (missing_high(current, stored_date, stored, today) is Some
            <==> daily_high(current, date) is Some || daily_high(stored, date) is Some),
        missing_high(current, stored_date, stored, today) matches Some((h, f, c)) ==> {
            &&& daily_high(current, date) is Some ==> daily_high(current, date) == Some(h)
            &&& daily_high(current, date) is None ==> daily_high(stored, date) == Some(h)
            &&& f matches Some(i) ==> history::forecast_of(current.forecast, date) == Some(i)
                && !(current.forecast.unwrap()@[i].high matches Some(v) && v.finite())
            &&& f is None ==> history::forecast_of(current.forecast, date) is None || (
            current.forecast.unwrap()@[history::forecast_of(
                current.forecast,
                date,
            ).unwrap()].high matches Some(v) && v.finite())
            &&& c matches Some(i) ==> history::chart_of(current.charts@, date) == Some(i) && !(
            current.charts@[i].max matches Some(v) && v.finite())
            &&& c is None ==> history::chart_of(current.charts@, date) is None || (
            current.charts@[history::chart_of(current.charts@, date).unwrap()].max matches Some(v)
                && v.finite())
        },
{
}

/// Where the text of the present day is no date, no high is filled in.
pub proof fn no_high_without_a_date(
    current: Temperatures,
    stored_date: Seq<char>,
    stored: Temperatures,
    today: Seq<char>,
)
    requires
        dates::full_date(today) is None,
    ensures
        missing_high(current, stored_date, stored, today) is None,
{
}

/// Filling in the high of a day changes the text of the day's high in the forecast and the
/// maximum of the chart, where the plan says, and nothing else of the snapshot.
pub proof fn filling_in_changes_the_high_only(
    s: WeatherSnapshot,
    d: DailyHigh,
    high_text: Seq<char>,
    t: WeatherSnapshot,
    k: int,
)
    requires
        points_into(d, s),
        high_filled(s, d, high_text, t),
    ensures
        t.station == s.station,
        t.real == s.real,
        t.air == s.air,
        t.passedchart == s.passedchart,
        t.climate == s.climate,
        t.radar == s.radar,
        t.stale == s.stale,
        t.debug == s.debug,
        t.tempchart@.len() == s.tempchart@.len(),
        0 <= k < s.tempchart@.len() && d.chart != Some(k as usize) ==> t.tempchart@[k]
            == s.tempchart@[k],
        d.chart matches Some(i) ==> t.tempchart@[i as int].max_temperature == Some(d.high)
            && t.tempchart@[i as int].min_temperature == s.tempchart@[i as int].min_temperature
            && t.tempchart@[i as int].date == s.tempchart@[i as int].date,
        t.predict is Some <==> s.predict is Some,
        s.predict is Some ==> t.predict.unwrap().days@.len() == s.predict.unwrap().days@.len(),
        s.predict is Some && 0 <= k < s.predict.unwrap().days@.len() && d.forecast_day != Some(
            k as usize,
        ) ==> t.predict.unwrap().days@[k] == s.predict.unwrap().days@[k],
        d.forecast_day matches Some(i) ==> {
            let before = s.predict.unwrap().days@[i as int];
            let after = t.predict.unwrap().days@[i as int];
            &&& after.day_temperature matches Some(v)
            &&& v@ == high_text
            &&& after.night_temperature == before.night_temperature
            &&& after.date == before.date
            &&& after.day_info == before.day_info
        },
{
}

/// What the provider delivered goes to the cache as it is, apart from the station, which is
/// completed, the debug payload, which is left out, and a high that is filled in.
pub proof fn fetched_reports_are_kept_whole(
    fetched: WeatherSnapshot,
    requested: ProviderStation,
    outcome: DailyHighOutcome,
    s: WeatherSnapshot,
)
    requires
        prepared_from(fetched, requested, outcome, s),
        outcome matches Ok(Some(p)) ==> points_into(p.0, fetched),
    ensures
        s.station == Some(station::merged(fetched.station, requested)),
        s.debug is None,
        s.real == fetched.real,
        s.air == fetched.air,
        s.passedchart == fetched.passedchart,
        s.climate == fetched.climate,
        s.radar == fetched.radar,
        s.stale == fetched.stale,
        !(outcome matches Ok(Some(p))) ==> s.predict == fetched.predict && s.tempchart
            == fetched.tempchart,
        outcome matches Ok(Some((d, high_text))) ==> {
            &&& d.chart matches Some(i) ==> s.tempchart@[i as int].max_temperature == Some(d.high)
            &&& d.forecast_day matches Some(i) ==> s.predict is Some && text::opt_text(
                s.predict.unwrap().days@[i as int].day_temperature,
            ) == Some(high_text@)
        },
{
}

/// What could not be done besides the fetch is told after the warnings of the fetch, in the
/// order in which it was tried, and nothing else is.
pub proof fn failures_besides_are_told(
    w: Seq<Seq<char>>,
    high: DailyHighOutcome,
    persisted: Result<(), String>,
    air: Result<Option<AirQuality>, String>,
    logged: Result<(), String>,
)
    ensures
        high is Ok ==> high_warned(w, high) == w,
        high matches Err(m) ==> high_warned(w, high) == w.push(
            "daily high fallback failed: "@ + m@,
        ),
        persisted is Ok && air is Ok ==> kept_warned(w, persisted, air) == w,
        persisted matches Err(m) ==> (air is Ok ==> kept_warned(w, persisted, air) == w.push(
            "cache write failed: "@ + m@,
        )),
        air matches Err(m) ==> (persisted is Ok ==> kept_warned(w, persisted, air) == w.push(
            "municipality air fallback failed: "@ + m@,
        )),
        persisted matches Err(m) ==> (air matches Err(e) ==> kept_warned(w, persisted, air)
            == w.push("cache write failed: "@ + m@).push(
            "municipality air fallback failed: "@ + e@,
        )),
        logged is Ok ==> logged_warned(w, logged) == w,
        logged matches Err(m) ==> logged_warned(w, logged) == w.push(
            "fetch log write failed: "@ + m@,
        ),
{
}

/// A snapshot has lent air quality only where it has none of its own, and is otherwise
/// unchanged.
pub proof fn own_air_is_kept(s: WeatherSnapshot, air: Option<AirQuality>)
    ensures
        s.air is Some ==> with_air(s, air).air == s.air,
        s.air is None ==> with_air(s, air).air == air,
        with_air(s, air).station == s.station,
        with_air(s, air).real == s.real,
        with_air(s, air).predict == s.predict,
        with_air(s, air).tempchart == s.tempchart,
        with_air(s, air).passedchart == s.passedchart,
        with_air(s, air).climate == s.climate,
        with_air(s, air).radar == s.radar,
        with_air(s, air).stale == s.stale,
        with_air(s, air).debug == s.debug,
{
}

/// Taking over alerts changes the alerts of a snapshot and nothing else. Where nothing was
/// observed the alerts stand alone.
pub proof fn alerts_change_nothing_else(
    s: WeatherSnapshot,
    parents: Seq<WeatherAlert>,
    t: WeatherSnapshot,
)
    requires
        parents_merged(s, parents, t),
    ensures
        t.station == s.station,
        t.predict == s.predict,
        t.air == s.air,
        t.tempchart == s.tempchart,
        t.passedchart == s.passedchart,
        t.climate == s.climate,
        t.radar == s.radar,
        t.stale == s.stale,
        t.debug == s.debug,
        parents.len() == 0 ==> t.real == s.real,
        s.real matches Some(a) ==> (t.real matches Some(b) && {
            &&& b.publish_time == a.publish_time
            &&& b.info == a.info
            &&& b.temperature == a.temperature
            &&& b.feel_temperature == a.feel_temperature
            &&& b.humidity == a.humidity
            &&& b.rain == a.rain
            &&& b.wind_direct == a.wind_direct
            &&& b.wind_power == a.wind_power
            &&& b.wind_speed == a.wind_speed
            &&& b.sunrise == a.sunrise
            &&& b.sunset == a.sunset
            &&& b.temperature_diff == a.temperature_diff
            &&& b.air_pressure == a.air_pressure
            &&& b.comfort_index == a.comfort_index
            &&& b.comfort_label == a.comfort_label
            &&& b.weather_icon == a.weather_icon
            &&& b.wind_degree == a.wind_degree
        }),
        s.real is None && parents.len() > 0 ==> (t.real matches Some(b) && {
            &&& b.publish_time is None
            &&& b.info is None
            &&& b.temperature is None
            &&& b.feel_temperature is None
            &&& b.humidity is None
            &&& b.rain is None
            &&& b.wind_direct is None
            &&& b.wind_power is None
            &&& b.wind_speed is None
            &&& b.sunrise is None
            &&& b.sunset is None
            &&& b.temperature_diff is None
            &&& b.air_pressure is None
            &&& b.comfort_index is None
            &&& b.comfort_label is None
            &&& b.weather_icon is None
            &&& b.wind_degree is None
        }),
{
}

/// What is served after a fetch is what was kept, with the debug payload of the fetch, its
/// own air quality or a lent one, and the parent's alerts.
pub proof fn what_was_kept_is_served(
    f: FetchedSnapshot,
    air: Result<Option<AirQuality>, String>,
    parents: Seq<WeatherAlert>,
    t: WeatherSnapshot,
)
    requires
        served_from(f, air, parents, t),
    ensures
        t.debug == f.debug,
        t.station == f.snapshot.station,
        t.predict == f.snapshot.predict,
        t.tempchart == f.snapshot.tempchart,
        t.passedchart == f.snapshot.passedchart,
        t.climate == f.snapshot.climate,
        t.radar == f.snapshot.radar,
        t.stale == f.snapshot.stale,
        f.snapshot.air is Some ==> t.air == f.snapshot.air,
        f.snapshot.air is None && air is Err ==> t.air is None,
        f.snapshot.air is None && air is Ok ==> t.air == air.unwrap(),
        parents.len() == 0 ==> t.real == f.snapshot.real,
        alert_count(t) >= alert_count(f.snapshot),
        parents.len() > 0 ==> alert_count(t) > 0,
{
    let base = WeatherSnapshot { debug: f.debug, ..f.snapshot };
    let s = match air {
        Ok(air) => with_air(base, air),
        Err(_) => base,
    };
    own_alerts_stay_first(s, parents, t);
    if parents.len() > 0 {
        no_parent_alert_is_lost(s, parents, t, 0);
    }
}

/// What stands in for a failed fetch is what was kept, marked as stale, with its station
/// completed, its own air quality or a lent one, and the parent's alerts.
pub proof fn what_was_kept_stands_in(
    kept: WeatherSnapshot,
    requested: ProviderStation,
    air: Option<AirQuality>,
    parents: Seq<WeatherAlert>,
    t: WeatherSnapshot,
)
    requires
        stale_from(kept, requested, air, parents, t),
    ensures
        t.stale,
        t.station == Some(station::merged(kept.station, requested)),
        t.predict == kept.predict,
        t.tempchart == kept.tempchart,
        t.passedchart == kept.passedchart,
        t.climate == kept.climate,
        t.radar == kept.radar,
        t.debug == kept.debug,
        kept.air is Some ==> t.air == kept.air,
        kept.air is None ==> t.air == air,
        parents.len() == 0 ==> t.real == kept.real,
        alert_count(t) >= alert_count(kept),
{
    let s = with_air(
        WeatherSnapshot {
            station: Some(station::merged(kept.station, requested)),
            stale: true,
            ..kept
        },
        air,
    );
    own_alerts_stay_first(s, parents, t);
}

/// A debug payload that is served has all warnings, and is otherwise that of the fetch.
pub proof fn debug_payloads_have_all_warnings(
    before: Option<DebugPayload>,
    warnings: Seq<Seq<char>>,
    d: Option<DebugPayload>,
)
    requires
        debug_with(before, warnings, d),
    ensures
        d is Some <==> before is Some,
        d is Some ==> {
            &&& text::texts(d.unwrap().warnings@) == warnings
            &&& d.unwrap().provider == before.unwrap().provider
            &&& d.unwrap().operation == before.unwrap().operation
            &&& d.unwrap().endpoint == before.unwrap().endpoint
            &&& d.unwrap().raw_json == before.unwrap().raw_json
        },
{
}

/// The number of alerts of a snapshot is that of what was observed.
pub proof fn alerts_are_counted(s: WeatherSnapshot)
    ensures
        s.real is None ==> alert_count(s) == 0,
        s.real is Some ==> alert_count(s) == s.real.unwrap().alerts@.len(),
{
}

/// A plan fits a snapshot exactly where the day and the chart that it names are there.
pub proof fn plans_name_what_is_there(d: DailyHigh, s: WeatherSnapshot)
    ensures
        points_into(d, s) <==> {
            &&& d.forecast_day is None || (s.predict is Some && d.forecast_day.unwrap()
                < s.predict.unwrap().days@.len())
            &&& d.chart is None || d.chart.unwrap() < s.tempchart@.len()
        },
{
}

} // verus!
