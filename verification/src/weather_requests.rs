//! Answering weather requests at their edges: which station is meant, what is answered,
//! and how remote addresses leave a report.

use vstd::prelude::*;
use crate::config::{AppConfig, StationConfig};
use crate::report::{ObservedWeather, RadarInfo, WeatherAlert, WeatherSnapshot};
use crate::resources::{self, ManagerView, ResourceManager};
use crate::rpc::{self, Reply, RpcErrorCode, RpcFailure};
use crate::station::{self, ProviderStation};
use crate::text;
use crate::weather::WeatherRequest;

verus! {

/// The weather request that a payload brings. A refresh is made where it is forced.
pub fn weather_request(decoded: Result<WeatherRequest, String>, force_refresh: bool) -> (r: Result<
    WeatherRequest,
    RpcFailure,
>)
    ensures
        match decoded {
            Ok(q) => r == Ok::<_, RpcFailure>(
                WeatherRequest { refresh: q.refresh || force_refresh, ..q },
            ),
            Err(m) => r matches Err(f) && rpc::fails(f, RpcErrorCode::BadRequest, m@),
        },
{
    match decoded {
        Ok(request) => {
            let mut request = request;
            if force_refresh {
                request.refresh = true;
            }
            Ok(request)
        },
        Err(message) => Err(RpcFailure::new(RpcErrorCode::BadRequest, message)),
    }
}

/// The request that refreshes a station.
pub fn refresh_request<F: Fn(&str) -> String>(name: &str, uuid_of: &F) -> (r: WeatherRequest)
    requires
        station::total(*uuid_of),
    ensures
        station::identified(*uuid_of, name@, r.unified_uuid@),
        r.refresh,
        !r.include_debug,
{
    WeatherRequest { unified_uuid: uuid_of(name), refresh: true, include_debug: false }
}

/// The answer to a weather request.
pub fn weather_reply(result: Result<WeatherSnapshot, String>) -> (r: Reply<WeatherSnapshot>)
    ensures
        match result {
            Ok(s) => r == Reply::Done(s),
            Err(m) => r matches Reply::Error(f) && rpc::fails(f, RpcErrorCode::Weather, m@),
        },
{
    match result {
        Ok(snapshot) => Reply::Done(snapshot),
        Err(message) => Reply::Error(RpcFailure::new(RpcErrorCode::Weather, message)),
    }
}

/// The index of the first of the first `n` stations that is enabled.
pub open spec fn first_enabled(stations: Seq<StationConfig>, n: nat) -> Option<int>
    decreases n,
{
    if n == 0 {
        None
    } else {
        match first_enabled(stations, (n - 1) as nat) {
            Some(i) => Some(i),
            None => if stations[n - 1].enabled {
                Some(n - 1)
            } else {
                None
            },
        }
    }
}

/// The name of the first enabled station.
pub fn first_enabled_station_name(config: &AppConfig) -> (r: Option<&str>)
    ensures
        text::opt_str(r) == match first_enabled(config.stations@, config.stations@.len()) {
            Some(i) => Some(config.stations@[i].name@),
            None => None,
        },
{
    let mut found: Option<usize> = None;
    let mut i: usize = 0;
    while i < config.stations.len()
        invariant
            i <= config.stations@.len(),
            match found {
                Some(k) => k < i && first_enabled(config.stations@, i as nat) == Some(k as int),
                None => first_enabled(config.stations@, i as nat) is None,
            },
        decreases config.stations@.len() - i,
    {
        if found.is_none() && config.stations[i].enabled {
            found = Some(i);
        }
        i = i + 1;
    }
    match found {
        Some(k) => Some(config.stations[k].name.as_str()),
        None => None,
    }
}

/// How a station is looked for.
#[derive(Debug, PartialEq, Eq)]
pub enum StationLookup {
    /// By this name.
    ByName(String),
    /// By its identifier, among those that are kept.
    ByUuid,
}

/// How the station of a request is looked for: a blank request means the first enabled
/// station.
pub fn begin_station_lookup(config: &AppConfig, unified_uuid: &str) -> (r: Result<
    StationLookup,
    String,
>)
    ensures
        if text::blank(unified_uuid@) {
            match first_enabled(config.stations@, config.stations@.len()) {
                Some(i) => r matches Ok(l) && l matches StationLookup::ByName(name) && name@
                    == config.stations@[i].name@,
                None => r matches Err(m) && m@
                    == "no enabled station is configured for the default weather request"@,
            }
        } else {
            r == Ok::<_, String>(StationLookup::ByUuid)
        },
{
    if !text::is_blank(unified_uuid) {
        return Ok(StationLookup::ByUuid);
    }
    match first_enabled_station_name(config) {
        Some(name) => Ok(StationLookup::ByName(name.to_owned())),
        None => Err(
            "no enabled station is configured for the default weather request".to_owned(),
        ),
    }
}

/// The name has an identifier, and that is another one.
pub open spec fn identified_otherwise<F: Fn(&str) -> String>(
    uuid_of: F,
    name: Seq<char>,
    uuid: Seq<char>,
) -> bool {
    exists|other: Seq<char>| #[trigger]
        station::identified(uuid_of, name, other) && other != uuid
}

/// The name of the configured station with an identifier, where the identifier is not
/// kept: of the first one, enabled or not.
pub fn configured_station_name<'a, F: Fn(&str) -> String>(
    config: &'a AppConfig,
    unified_uuid: &str,
    uuid_of: &F,
) -> (r: Result<&'a str, String>)
    requires
        station::total(*uuid_of),
    ensures
        match r {
            Ok(name) => exists|i: int|
                0 <= i < config.stations@.len() && name@ == (#[trigger] config.stations@[i]).name@
                    && station::identified(*uuid_of, name@, unified_uuid@) && forall|j: int|
                    0 <= j < i ==> identified_otherwise(
                        *uuid_of,
                        (#[trigger] config.stations@[j]).name@,
                        unified_uuid@,
                    ),
            Err(m) => {
                &&& m@
                    == "station not found for unified_uuid; call FUZZY_MATCH_STATIONS first to populate DB"@
                &&& forall|j: int|
                    0 <= j < config.stations@.len() ==> identified_otherwise(
                        *uuid_of,
                        (#[trigger] config.stations@[j]).name@,
                        unified_uuid@,
                    )
            },
        },
{
    let mut i: usize = 0;
    while i < config.stations.len()
        invariant
            i <= config.stations@.len(),
            station::total(*uuid_of),
            forall|j: int|
                0 <= j < i ==> identified_otherwise(
                    *uuid_of,
                    (#[trigger] config.stations@[j]).name@,
                    unified_uuid@,
                ),
        decreases config.stations@.len() - i,
    {
        let name = config.stations[i].name.as_str();
        let uuid = uuid_of(name);
        assert(station::identified(*uuid_of, name@, uuid@));
        if text::same(uuid.as_str(), unified_uuid) {
            assert(config.stations@[i as int].name@ == name@);
            return Ok(name);
        }
        i = i + 1;
    }
    Err(
        "station not found for unified_uuid; call FUZZY_MATCH_STATIONS first to populate DB".to_owned(),
    )
}

/// The station under the name by which it was looked for, with the identifier of that
/// name.
pub fn station_by_name<F: Fn(&str) -> String>(
    found: ProviderStation,
    name: &str,
    uuid_of: &F,
) -> (r: ProviderStation)
    requires
        station::total(*uuid_of),
    ensures
        r.name@ == name@,
        station::identified(*uuid_of, name@, r.unified_uuid@),
        r == (ProviderStation { name: r.name, unified_uuid: r.unified_uuid, ..found }),
{
    let mut found = found;
    found.name = name.to_owned();
    found.unified_uuid = uuid_of(name);
    found
}

/// An optional address leaves a report: where there is one, the resource id of `after` is
/// the one under which it is registered; else that of `before` stays.
pub open spec fn address_leaves<F: Fn(&str) -> String>(
    s: ManagerView,
    max_registrations: usize,
    url: Option<String>,
    before: Option<String>,
    uuid_of: F,
    t: ManagerView,
    after: Option<String>,
) -> bool {
    match url {
        Some(url) => resources::registers(
            s,
            max_registrations,
            url@,
            uuid_of,
            t,
            text::opt_text(after),
        ),
        None => t == s && after == before,
    }
}

fn replace_address<F: Fn(&str) -> String>(
    manager: &mut ResourceManager,
    url: Option<String>,
    before: Option<String>,
    uuid_of: &F,
) -> (r: Option<String>)
    requires
        old(manager).wf(),
        station::total(*uuid_of),
    ensures
        final(manager).wf(),
        final(manager).same_limits(*old(manager)),
        address_leaves(
            old(manager)@,
            old(manager).registration_limit(),
            url,
            before,
            *uuid_of,
            final(manager)@,
            r,
        ),
{
    match url {
        Some(url) => manager.register(url.as_str(), uuid_of),
        None => before,
    }
}

/// The radar picture without remote addresses.
pub open spec fn radar_prepared<F: Fn(&str) -> String>(
    s: ManagerView,
    max_registrations: usize,
    before: Option<RadarInfo>,
    uuid_of: F,
    t: ManagerView,
    after: Option<RadarInfo>,
) -> bool {
    match before {
        Some(b) => {
            &&& after matches Some(a)
            &&& a == (RadarInfo {
                image_url: None,
                page_url: None,
                image_resource_id: a.image_resource_id,
                ..b
            })
            &&& address_leaves(
                s,
                max_registrations,
                b.image_url,
                b.image_resource_id,
                uuid_of,
                t,
                a.image_resource_id,
            )
        },
        None => after is None && t == s,
    }
}

/// An alert without remote addresses.
pub open spec fn alert_prepared<F: Fn(&str) -> String>(
    s: ManagerView,
    max_registrations: usize,
    b: WeatherAlert,
    uuid_of: F,
    t: ManagerView,
    a: WeatherAlert,
) -> bool {
    &&& a == (WeatherAlert {
        icon_url: None,
        url: None,
        icon_resource_id: a.icon_resource_id,
        ..b
    })
    &&& address_leaves(
        s,
        max_registrations,
        b.icon_url,
        b.icon_resource_id,
        uuid_of,
        t,
        a.icon_resource_id,
    )
}

/// The alerts, in turn, without remote addresses. `states` are the states between.
pub open spec fn alerts_prepared<F: Fn(&str) -> String>(
    states: Seq<ManagerView>,
    max_registrations: usize,
    before: Seq<WeatherAlert>,
    uuid_of: F,
    after: Seq<WeatherAlert>,
) -> bool {
    &&& states.len() == before.len() + 1
    &&& after.len() == before.len()
    &&& forall|i: int|
        0 <= i < before.len() ==> alert_prepared(
            states[i],
            max_registrations,
            #[trigger] before[i],
            uuid_of,
            states[i + 1],
            after[i],
        )
}

fn prepare_alerts<F: Fn(&str) -> String>(
    manager: &mut ResourceManager,
    alerts: Vec<WeatherAlert>,
    uuid_of: &F,
) -> (r: Vec<WeatherAlert>)
    requires
        old(manager).wf(),
        station::total(*uuid_of),
    ensures
        final(manager).wf(),
        final(manager).same_limits(*old(manager)),
        exists|states: Seq<ManagerView>| #[trigger]
            alerts_prepared(
                states,
                old(manager).registration_limit(),
                alerts@,
                *uuid_of,
                r@,
            ) && states[0] == old(manager)@ && states.last() == final(manager)@,
{
    let ghost all = alerts@;
    let ghost max = manager.registration_limit();
    let ghost mut states: Seq<ManagerView> = seq![manager@];
    let mut rest = alerts;
    let mut prepared: Vec<WeatherAlert> = Vec::new();
    assert(all.skip(0) =~= all);
    while rest.len() > 0
        invariant
            manager.wf(),
            manager.same_limits(*old(manager)),
            max == old(manager).registration_limit(),
            station::total(*uuid_of),
            all == alerts@,
            prepared@.len() + rest@.len() == all.len(),
            rest@ == all.skip(prepared@.len() as int),
            states.len() == prepared@.len() + 1,
            states[0] == old(manager)@,
            states.last() == manager@,
            forall|i: int|
                0 <= i < prepared@.len() ==> alert_prepared(
                    states[i],
                    max,
                    #[trigger] all[i],
                    *uuid_of,
                    states[i + 1],
                    prepared@[i],
                ),
        decreases rest@.len(),
    {
        let ghost n = prepared@.len() as int;
        let ghost before_states = states;
        let ghost before_prepared = prepared@;
        let alert = rest.remove(0);
        assert(alert == all[n]);
        assert(rest@ =~= all.skip(n + 1));
        let mut next = alert;
        let icon_url = next.icon_url;
        next.icon_url = None;
        let icon_resource_id = next.icon_resource_id;
        next.icon_resource_id = replace_address(manager, icon_url, icon_resource_id, uuid_of);
        next.url = None;
        prepared.push(next);
        proof {
            states = states.push(manager@);
            assert forall|i: int| 0 <= i < prepared@.len() implies alert_prepared(
                states[i],
                max,
                #[trigger] all[i],
                *uuid_of,
                states[i + 1],
                prepared@[i],
            ) by {
                if i < n {
                    assert(states[i] == before_states[i]);
                    assert(states[i + 1] == before_states[i + 1]);
                    assert(prepared@[i] == before_prepared[i]);
                }
            }
        }
    }
    assert(alerts_prepared(states, max, all, *uuid_of, prepared@));
    prepared
}

/// `a` is the snapshot `b` without remote addresses.
pub open spec fn addresses_left<F: Fn(&str) -> String>(
    s: ManagerView,
    max_registrations: usize,
    b: WeatherSnapshot,
    uuid_of: F,
    t: ManagerView,
    a: WeatherSnapshot,
) -> bool {
    &&& a == (WeatherSnapshot { radar: a.radar, real: a.real, ..b })
    &&& exists|m: ManagerView| #[trigger]
        radar_prepared(s, max_registrations, b.radar, uuid_of, m, a.radar) && match b.real {
            Some(bo) => {
                &&& a.real matches Some(ao)
                &&& ao == (ObservedWeather { alerts: ao.alerts, ..bo })
                &&& exists|states: Seq<ManagerView>| #[trigger]
                    alerts_prepared(states, max_registrations, bo.alerts@, uuid_of, ao.alerts@)
                        && states[0] == m && states.last() == t
            },
            None => a.real is None && t == m,
        }
}

/// The snapshot without remote addresses: pictures are registered, and the snapshot names
/// the resources in their place.
pub fn prepare_snapshot_resources<F: Fn(&str) -> String>(
    manager: &mut ResourceManager,
    snapshot: WeatherSnapshot,
    uuid_of: &F,
) -> (r: WeatherSnapshot)
    requires
        old(manager).wf(),
        station::total(*uuid_of),
    ensures
        final(manager).wf(),
        final(manager).same_limits(*old(manager)),
        addresses_left(
            old(manager)@,
            old(manager).registration_limit(),
            snapshot,
            *uuid_of,
            final(manager)@,
            r,
        ),
{
    let ghost b = snapshot;
    let ghost s = manager@;
    let ghost max = manager.registration_limit();
    let mut snapshot = snapshot;
    let radar = snapshot.radar;
    snapshot.radar = match radar {
        Some(radar) => {
            let mut radar = radar;
            let image_url = radar.image_url;
            radar.image_url = None;
            let image_resource_id = radar.image_resource_id;
            radar.image_resource_id = replace_address(
                manager,
                image_url,
                image_resource_id,
                uuid_of,
            );
            radar.page_url = None;
            Some(radar)
        },
        None => None,
    };
    let ghost m = manager@;
    assert(radar_prepared(s, max, b.radar, *uuid_of, m, snapshot.radar));
    let observed = snapshot.real;
    snapshot.real = match observed {
        Some(observed) => {
            let mut observed = observed;
            let alerts = observed.alerts;
            observed.alerts = prepare_alerts(manager, alerts, uuid_of);
            Some(observed)
        },
        None => None,
    };
    snapshot
}

/// Nothing in a prepared snapshot names a remote address.
pub proof fn no_remote_address_is_left<F: Fn(&str) -> String>(
    s: ManagerView,
    max_registrations: usize,
    b: WeatherSnapshot,
    uuid_of: F,
    t: ManagerView,
    a: WeatherSnapshot,
)
    requires
        addresses_left(s, max_registrations, b, uuid_of, t, a),
    ensures
        a.radar matches Some(radar) ==> radar.image_url is None && radar.page_url is None,
        a.real matches Some(observed) ==> forall|i: int|
            0 <= i < observed.alerts@.len() ==> (#[trigger] observed.alerts@[i]).icon_url is None
                && observed.alerts@[i].url is None,
{
    match b.real {
        Some(bo) => {
            let ao = a.real->0;
            let states = choose|states: Seq<ManagerView>| #[trigger]
                alerts_prepared(states, max_registrations, bo.alerts@, uuid_of, ao.alerts@)
                    && states.last() == t;
            assert forall|i: int| 0 <= i < ao.alerts@.len() implies (
            #[trigger] ao.alerts@[i]).icon_url is None && ao.alerts@[i].url is None by {
                assert(alert_prepared(
                    states[i],
                    max_registrations,
                    bo.alerts@[i],
                    uuid_of,
                    states[i + 1],
                    ao.alerts@[i],
                ));
            }
        },
        None => {},
    }
}

/// The first enabled station stands for a request that names none.
pub proof fn the_first_enabled_station_is_meant(stations: Seq<StationConfig>, n: nat)
    requires
        n <= stations.len(),
    ensures
        match first_enabled(stations, n) {
            Some(i) => {
                &&& 0 <= i < n
                &&& stations[i].enabled
                &&& forall|k: int| 0 <= k < i ==> !(#[trigger] stations[k]).enabled
            },
            None => forall|k: int| 0 <= k < n ==> !(#[trigger] stations[k]).enabled,
        },
    decreases n,
{
    if n > 0 {
        the_first_enabled_station_is_meant(stations, (n - 1) as nat);
    }
}

/// A prepared snapshot is the snapshot in all but its remote addresses: the alerts keep
/// what they say, in their order, and the radar its title.
pub proof fn preparing_changes_addresses_only<F: Fn(&str) -> String>(
    s: ManagerView,
    max_registrations: usize,
    b: WeatherSnapshot,
    uuid_of: F,
    t: ManagerView,
    a: WeatherSnapshot,
    i: int,
)
    requires
        addresses_left(s, max_registrations, b, uuid_of, t, a),
    ensures
        a.station == b.station,
        a.predict == b.predict,
        a.air == b.air,
        a.tempchart == b.tempchart,
        a.passedchart == b.passedchart,
        a.climate == b.climate,
        a.stale == b.stale,
        a.debug == b.debug,
        a.radar is Some <==> b.radar is Some,
        b.radar is Some ==> a.radar.unwrap().title == b.radar.unwrap().title,
        b.radar is Some && b.radar.unwrap().image_url is None ==> a.radar.unwrap().image_resource_id
            == b.radar.unwrap().image_resource_id,
        a.real is Some <==> b.real is Some,
        b.real is Some ==> {
            let x = b.real.unwrap();
            let y = a.real.unwrap();
            &&& y.temperature == x.temperature
            &&& y.info == x.info
            &&& y.publish_time == x.publish_time
            &&& y.alerts@.len() == x.alerts@.len()
            &&& 0 <= i < x.alerts@.len() ==> {
                &&& y.alerts@[i].alert == x.alerts@[i].alert
                &&& y.alerts@[i].province == x.alerts@[i].province
                &&& y.alerts@[i].city == x.alerts@[i].city
                &&& y.alerts@[i].issue_content == x.alerts@[i].issue_content
                &&& y.alerts@[i].prevention == x.alerts@[i].prevention
                &&& y.alerts@[i].signal_type == x.alerts@[i].signal_type
                &&& y.alerts@[i].signal_level == x.alerts@[i].signal_level
                &&& y.alerts@[i].icon_name == x.alerts@[i].icon_name
                &&& y.alerts@[i].inherited == x.alerts@[i].inherited
                &&& x.alerts@[i].icon_url is None ==> y.alerts@[i].icon_resource_id
                    == x.alerts@[i].icon_resource_id
            }
        },
{
    if let Some(bo) = b.real {
        let ao = a.real.unwrap();
        let states = choose|states: Seq<ManagerView>| #[trigger]
            alerts_prepared(states, max_registrations, bo.alerts@, uuid_of, ao.alerts@)
                && states.last() == t;
        if 0 <= i < bo.alerts@.len() {
            assert(alert_prepared(
                states[i],
                max_registrations,
                bo.alerts@[i],
                uuid_of,
                states[i + 1],
                ao.alerts@[i],
            ));
        }
    }
}

/// Pictures are registered in turn: that of the radar first, then those of the alerts, each
/// under the address that it has.
pub proof fn pictures_are_registered<F: Fn(&str) -> String>(
    s: ManagerView,
    max_registrations: usize,
    b: WeatherSnapshot,
    uuid_of: F,
    t: ManagerView,
    a: WeatherSnapshot,
    i: int,
)
    requires
        addresses_left(s, max_registrations, b, uuid_of, t, a),
    ensures
        b.radar is Some && b.radar.unwrap().image_url is Some ==> exists|m: ManagerView| #[trigger]
            resources::registers(
                s,
                max_registrations,
                b.radar.unwrap().image_url.unwrap()@,
                uuid_of,
                m,
                text::opt_text(a.radar.unwrap().image_resource_id),
            ),
        b.real is Some && 0 <= i < b.real.unwrap().alerts@.len()
            && b.real.unwrap().alerts@[i].icon_url is Some ==> exists|m: ManagerView, n: ManagerView|
         #[trigger]
            resources::registers(
                m,
                max_registrations,
                b.real.unwrap().alerts@[i].icon_url.unwrap()@,
                uuid_of,
                n,
                text::opt_text(a.real.unwrap().alerts@[i].icon_resource_id),
            ),
        (b.radar is None || b.radar.unwrap().image_url is None) && (b.real is None
            || b.real.unwrap().alerts@.len() == 0) ==> t == s,
{
    let m = choose|m: ManagerView| #[trigger]
        radar_prepared(s, max_registrations, b.radar, uuid_of, m, a.radar) && match b.real {
            Some(bo) => {
                &&& a.real matches Some(ao)
                &&& ao == (ObservedWeather { alerts: ao.alerts, ..bo })
                &&& exists|states: Seq<ManagerView>| #[trigger]
                    alerts_prepared(states, max_registrations, bo.alerts@, uuid_of, ao.alerts@)
                        && states[0] == m && states.last() == t
            },
            None => a.real is None && t == m,
        };
    if let Some(bo) = b.real {
        let ao = a.real.unwrap();
        let states = choose|states: Seq<ManagerView>| #[trigger]
            alerts_prepared(states, max_registrations, bo.alerts@, uuid_of, ao.alerts@)
                && states[0] == m && states.last() == t;
        if 0 <= i < bo.alerts@.len() {
            assert(alert_prepared(
                states[i],
                max_registrations,
                bo.alerts@[i],
                uuid_of,
                states[i + 1],
                ao.alerts@[i],
            ));
        }
    }
}

} // verus!
