//! When which station is refreshed. Times are nanoseconds on a monotonic clock.

use vstd::prelude::*;
use crate::clock;
use crate::config::{AppConfig, StationConfig};
use crate::limits::MAX_CONCURRENT_REFRESHES;
use crate::text;
use crate::textmap::TextMap;

verus! {

/// Between the first refreshes of one station and the next in order.
pub const STAGGER: u128 = 5_000_000_000;

/// The longest that the scheduler sleeps.
pub const FALLBACK_WAKE: u128 = 60_000_000_000;

/// Nanoseconds in a second.
pub const SECOND: u128 = 1_000_000_000;

/// Nanoseconds in a millisecond.
pub const MILLISECOND: u128 = 1_000_000;

/// The last instant that the clock can express: its seconds are a signed number of
/// 64 bits.
pub const LAST_INSTANT: u128 = 9_223_372_036_854_775_807_999_999_999;

/// When a station was refreshed, and when it is to be refreshed next.
#[derive(Debug, Clone, Copy, PartialEq, Eq)]
pub struct StationSchedule {
    pub last_completed: Option<u128>,
    pub next_due: u128,
    pub in_flight: bool,
    pub date_refresh_pending: bool,
}

/// The instant after a delay, or the start where the clock cannot express it.
pub open spec fn due_after(start: u128, delay: u128) -> u128 {
    if start + delay <= LAST_INSTANT {
        (start + delay) as u128
    } else {
        start
    }
}

/// The instant after a delay, or the start where the clock cannot express it.
pub fn deadline(start: u128, delay: u128) -> (r: u128)
    ensures
        r == due_after(start, delay),
{
    match start.checked_add(delay) {
        Some(due) => {
            if due <= LAST_INSTANT {
                due
            } else {
                start
            }
        },
        None => start,
    }
}

/// The delay of the first refresh of the station at an index.
pub open spec fn delay_of(index: int) -> u128 {
    (STAGGER * if index <= u32::MAX {
        index
    } else {
        u32::MAX as int
    }) as u128
}

/// The delay of the first refresh of the station at an index.
pub fn stagger(index: usize) -> (r: u128)
    ensures
        r == delay_of(index as int),
{
    let n: u128 = if index <= u32::MAX as usize {
        index as u128
    } else {
        u32::MAX as u128
    };
    STAGGER * n
}

/// The names of the enabled ones among the first `n` stations, each once.
pub open spec fn enabled_names(stations: Seq<StationConfig>, n: nat) -> Seq<Seq<char>>
    decreases n,
{
    if n == 0 {
        Seq::empty()
    } else {
        let before = enabled_names(stations, (n - 1) as nat);
        let last = stations[n - 1];
        if last.enabled && !before.contains(last.name@) {
            before.push(last.name@)
        } else {
            before
        }
    }
}

proof fn lemma_texts_push(v: Seq<String>, s: String)
    ensures
        text::texts(v.push(s)) == text::texts(v).push(s@),
{
    assert(text::texts(v.push(s)) =~= text::texts(v).push(s@));
}

fn holds(names: &Vec<String>, name: &str) -> (r: bool)
    ensures
        r == text::texts(names@).contains(name@),
{
    let mut i: usize = 0;
    while i < names.len()
        invariant
            i <= names@.len(),
            forall|j: int| 0 <= j < i ==> #[trigger] text::texts(names@)[j] != name@,
        decreases names@.len() - i,
    {
        assert(text::texts(names@)[i as int] == names@[i as int]@);
        if text::same(names[i].as_str(), name) {
            return true;
        }
        i = i + 1;
    }
    false
}

/// The names of the enabled stations, each once, in the order of the configuration.
pub fn enabled_stations(config: &AppConfig) -> (r: Vec<String>)
    ensures
        text::texts(r@) == enabled_names(config.stations@, config.stations@.len()),
{
    let mut names: Vec<String> = Vec::new();
    let mut i: usize = 0;
    assert(text::texts(names@) =~= Seq::empty());
    while i < config.stations.len()
        invariant
            i <= config.stations@.len(),
            text::texts(names@) == enabled_names(config.stations@, i as nat),
        decreases config.stations@.len() - i,
    {
        let station = &config.stations[i];
        if station.enabled && !holds(&names, station.name.as_str()) {
            proof {
                lemma_texts_push(names@, station.name);
            }
            names.push(station.name.clone());
        }
        i = i + 1;
    }
    names
}

/// No station is scheduled twice, and each that is scheduled is an enabled one.
pub proof fn enabled_names_are_unique(stations: Seq<StationConfig>, n: nat)
    requires
        n <= stations.len(),
    ensures
        enabled_names(stations, n).no_duplicates(),
        forall|name: Seq<char>| #[trigger]
            enabled_names(stations, n).contains(name) <==> exists|i: int|
                0 <= i < n && (#[trigger] stations[i]).enabled && stations[i].name@ == name,
    decreases n,
{
    if n > 0 {
        let m = (n - 1) as nat;
        let before = enabled_names(stations, m);
        let after = enabled_names(stations, n);
        let last = stations[n - 1];
        enabled_names_are_unique(stations, m);
        assert forall|name: Seq<char>| #[trigger] after.contains(name) <==> exists|i: int|
            0 <= i < n && (#[trigger] stations[i]).enabled && stations[i].name@ == name by {
            if before.contains(name) {
                let j = choose|j: int| 0 <= j < before.len() && before[j] == name;
                assert(after[j] == name);
            }
            if last.enabled && last.name@ == name && !before.contains(name) {
                assert(after[before.len() as int] == name);
            }
        }
    }
}

/// How long a report serves, at least a second.
pub open spec fn ttl_of(seconds: u64) -> u128 {
    (SECOND * if seconds == 0 {
        1
    } else {
        seconds as int
    }) as u128
}

/// How long a report serves, at least a second.
pub fn weather_ttl(config: &AppConfig) -> (r: u128)
    ensures
        r == ttl_of(config.updater.weather_ttl_seconds),
{
    let seconds: u128 = if config.updater.weather_ttl_seconds == 0 {
        1
    } else {
        config.updater.weather_ttl_seconds as u128
    };
    SECOND * seconds
}

/// The schedules of the stations, by name.
pub type Schedules = TextMap<StationSchedule>;

/// A schedule after the time that reports serve changed.
pub open spec fn retimed(s: StationSchedule, ttl: u128) -> StationSchedule {
    if s.date_refresh_pending {
        s
    } else {
        match s.last_completed {
            Some(at) => StationSchedule { next_due: due_after(at, ttl), ..s },
            None => s,
        }
    }
}

/// The schedule of a new station.
pub open spec fn newly(now: u128, index: int) -> StationSchedule {
    StationSchedule {
        last_completed: None,
        next_due: due_after(now, delay_of(index)),
        in_flight: false,
        date_refresh_pending: false,
    }
}

/// The index at which a name stands first, at or after `i`.
pub open spec fn first_index(order: Seq<Seq<char>>, name: Seq<char>, i: int) -> int
    decreases order.len() - i,
{
    if i < 0 || i >= order.len() || order[i] == name {
        i
    } else {
        first_index(order, name, i + 1)
    }
}

proof fn lemma_first_index(order: Seq<Seq<char>>, i: int, k: int)
    requires
        0 <= i <= k < order.len(),
        forall|j: int| i <= j < k ==> #[trigger] order[j] != order[k],
    ensures
        first_index(order, order[k], i) == k,
    decreases k - i,
{
    if i < k {
        assert(order[i] != order[k]);
        lemma_first_index(order, i + 1, k);
    }
}

/// The schedules once the stations are those of `order`: what is no longer there goes,
/// what is new is staggered, and what stays is due when its last report has served.
pub open spec fn reconciled(
    s: Map<Seq<char>, StationSchedule>,
    order: Seq<Seq<char>>,
    now: u128,
    ttl: u128,
) -> Map<Seq<char>, StationSchedule> {
    Map::new(
        |name: Seq<char>| order.contains(name),
        |name: Seq<char>|
            if s.contains_key(name) {
                retimed(s[name], ttl)
            } else {
                newly(now, first_index(order, name, 0))
            },
    )
}

/// Fits the schedules to the stations of `station_order`.
pub fn reconcile_schedules(
    schedules: &mut Schedules,
    station_order: &Vec<String>,
    now: u128,
    ttl: u128,
)
    requires
        old(schedules).wf(),
    ensures
        final(schedules).wf(),
        final(schedules)@ == reconciled(
            old(schedules)@,
            text::texts(station_order@),
            now,
            ttl,
        ),
{
    let ghost s = schedules@;
    let ghost order = text::texts(station_order@);
    let mut fitted: Schedules = TextMap::new();
    let mut i: usize = 0;
    while i < station_order.len()
        invariant
            i <= station_order@.len(),
            schedules.wf(),
            schedules@ == s,
            fitted.wf(),
            order == text::texts(station_order@),
            forall|n: Seq<char>| #[trigger]
                fitted@.contains_key(n) <==> order.take(i as int).contains(n),
            forall|n: Seq<char>|
                fitted@.contains_key(n) ==> #[trigger] fitted@[n] == if s.contains_key(n) {
                    retimed(s[n], ttl)
                } else {
                    newly(now, first_index(order, n, 0))
                },
        decreases station_order@.len() - i,
    {
        let name = station_order[i].as_str();
        let ghost earlier = order.take(i as int);
        let ghost seen = order.take(i + 1);
        proof {
            assert(order[i as int] == name@);
            assert(seen =~= earlier.push(name@));
            assert(seen[i as int] == name@);
            assert forall|n: Seq<char>| #[trigger]
                seen.contains(n) <==> earlier.contains(n) || n == name@ by {
                if earlier.contains(n) {
                    let j = choose|j: int| 0 <= j < earlier.len() && earlier[j] == n;
                    assert(seen[j] == n);
                }
            }
            if !earlier.contains(name@) {
                assert forall|j: int| 0 <= j < i implies #[trigger] order[j] != order[i as int] by {
                    assert(earlier[j] == order[j]);
                }
                lemma_first_index(order, 0, i as int);
            }
        }
        match schedules.get(name) {
            Some(schedule) => {
                let mut schedule = *schedule;
                if !schedule.date_refresh_pending {
                    match schedule.last_completed {
                        Some(at) => {
                            schedule.next_due = deadline(at, ttl);
                        },
                        None => {},
                    }
                }
                fitted.set(name, schedule);
            },
            None => {
                if fitted.get(name).is_none() {
                    let schedule = StationSchedule {
                        last_completed: None,
                        next_due: deadline(now, stagger(i)),
                        in_flight: false,
                        date_refresh_pending: false,
                    };
                    fitted.set(name, schedule);
                }
            },
        }
        i = i + 1;
    }
    assert(order.take(i as int) =~= order);
    assert(fitted@ =~= reconciled(s, order, now, ttl));
    *schedules = fitted;
}

/// A schedule after the local date changed.
pub open spec fn redated(s: StationSchedule, now: u128, index: int) -> StationSchedule {
    StationSchedule {
        date_refresh_pending: true,
        next_due: if s.in_flight {
            s.next_due
        } else {
            due_after(now, delay_of(index))
        },
        ..s
    }
}

/// The schedules after the local date changed, for the first `n` stations.
pub open spec fn date_refreshed(
    s: Map<Seq<char>, StationSchedule>,
    order: Seq<Seq<char>>,
    n: nat,
    now: u128,
) -> Map<Seq<char>, StationSchedule>
    decreases n,
{
    if n == 0 {
        s
    } else {
        let before = date_refreshed(s, order, (n - 1) as nat, now);
        let name = order[n - 1];
        if before.contains_key(name) {
            before.insert(name, redated(before[name], now, n - 1))
        } else {
            before
        }
    }
}

/// Makes every station due again, since the local date changed. One whose refresh is
/// under way is due once that ends.
pub fn schedule_date_refresh(schedules: &mut Schedules, station_order: &Vec<String>, now: u128)
    requires
        old(schedules).wf(),
    ensures
        final(schedules).wf(),
        final(schedules)@ == date_refreshed(
            old(schedules)@,
            text::texts(station_order@),
            station_order@.len(),
            now,
        ),
{
    let ghost order = text::texts(station_order@);
    let mut i: usize = 0;
    while i < station_order.len()
        invariant
            i <= station_order@.len(),
            schedules.wf(),
            order == text::texts(station_order@),
            schedules@ == date_refreshed(old(schedules)@, order, i as nat, now),
        decreases station_order@.len() - i,
    {
        let name = station_order[i].as_str();
        assert(order[i as int] == name@);
        match schedules.get(name) {
            Some(schedule) => {
                let mut schedule = *schedule;
                schedule.date_refresh_pending = true;
                if !schedule.in_flight {
                    schedule.next_due = deadline(now, stagger(i));
                }
                schedules.set(name, schedule);
            },
            None => {},
        }
        i = i + 1;
    }
}

/// After the local date changed, the station at an index is pending, and due with its
/// stagger unless its refresh is under way.
pub proof fn date_change_staggers(
    s: Map<Seq<char>, StationSchedule>,
    order: Seq<Seq<char>>,
    n: nat,
    now: u128,
    i: int,
)
    requires
        order.no_duplicates(),
        0 <= i < n <= order.len(),
        s.contains_key(order[i]),
    ensures
        date_refreshed(s, order, n, now).contains_key(order[i]),
        date_refreshed(s, order, n, now)[order[i]] == redated(s[order[i]], now, i),
    decreases n,
{
    let m = (n - 1) as nat;
    let before = date_refreshed(s, order, m, now);
    if i == n - 1 {
        lemma_date_untouched(s, order, m, now, order[i]);
    } else {
        date_change_staggers(s, order, m, now, i);
        assert(order[n - 1] != order[i]);
    }
}

proof fn lemma_date_untouched(
    s: Map<Seq<char>, StationSchedule>,
    order: Seq<Seq<char>>,
    n: nat,
    now: u128,
    name: Seq<char>,
)
    requires
        n <= order.len(),
        s.contains_key(name),
        forall|j: int| 0 <= j < n ==> #[trigger] order[j] != name,
    ensures
        date_refreshed(s, order, n, now).contains_key(name),
        date_refreshed(s, order, n, now)[name] == s[name],
    decreases n,
{
    if n > 0 {
        lemma_date_untouched(s, order, (n - 1) as nat, now, name);
        assert(order[n - 1] != name);
    }
}

/// A station is due and its refresh is not under way.
pub open spec fn ready(s: StationSchedule, now: u128) -> bool {
    !s.in_flight && s.next_due <= now
}

/// A schedule after its refresh was started.
pub open spec fn launched(s: StationSchedule, now: u128, ttl: u128) -> StationSchedule {
    StationSchedule {
        in_flight: true,
        date_refresh_pending: false,
        next_due: due_after(now, ttl),
        ..s
    }
}

/// The schedules, and the stations to refresh, after the first `n` stations were asked in
/// turn whether they are due, for as long as there is room.
pub open spec fn claims(
    s: Map<Seq<char>, StationSchedule>,
    order: Seq<Seq<char>>,
    n: nat,
    now: u128,
    ttl: u128,
    available: nat,
) -> (Map<Seq<char>, StationSchedule>, Seq<Seq<char>>)
    decreases n,
{
    if n == 0 {
        (s, Seq::empty())
    } else {
        let (before, claimed) = claims(s, order, (n - 1) as nat, now, ttl, available);
        let name = order[n - 1];
        if claimed.len() < available && before.contains_key(name) && ready(before[name], now) {
            (before.insert(name, launched(before[name], now, ttl)), claimed.push(name))
        } else {
            (before, claimed)
        }
    }
}

proof fn lemma_claims_full(
    s: Map<Seq<char>, StationSchedule>,
    order: Seq<Seq<char>>,
    n: nat,
    m: nat,
    now: u128,
    ttl: u128,
    available: nat,
)
    requires
        n <= m <= order.len(),
        claims(s, order, n, now, ttl, available).1.len() >= available,
    ensures
        claims(s, order, m, now, ttl, available) == claims(s, order, n, now, ttl, available),
    decreases m - n,
{
    if n < m {
        lemma_claims_full(s, order, n, (m - 1) as nat, now, ttl, available);
    }
}

/// Starts the refresh of stations that are due, in order, for as long as there is room.
pub fn claim_due_stations(
    station_order: &Vec<String>,
    schedules: &mut Schedules,
    now: u128,
    ttl: u128,
    available: usize,
) -> (r: Vec<String>)
    requires
        old(schedules).wf(),
    ensures
        final(schedules).wf(),
        (final(schedules)@, text::texts(r@)) == claims(
            old(schedules)@,
            text::texts(station_order@),
            station_order@.len(),
            now,
            ttl,
            available as nat,
        ),
{
    let ghost order = text::texts(station_order@);
    let mut claimed: Vec<String> = Vec::new();
    assert(text::texts(claimed@) =~= Seq::empty());
    let mut i: usize = 0;
    while i < station_order.len()
        invariant
            i <= station_order@.len(),
            schedules.wf(),
            order == text::texts(station_order@),
            (schedules@, text::texts(claimed@)) == claims(
                old(schedules)@,
                order,
                i as nat,
                now,
                ttl,
                available as nat,
            ),
        decreases station_order@.len() - i,
    {
        if claimed.len() >= available {
            proof {
                assert(text::texts(claimed@).len() == claimed@.len());
                lemma_claims_full(
                    old(schedules)@,
                    order,
                    i as nat,
                    order.len(),
                    now,
                    ttl,
                    available as nat,
                );
            }
            return claimed;
        }
        let name = station_order[i].as_str();
        assert(order[i as int] == name@);
        assert(text::texts(claimed@).len() == claimed@.len());
        match schedules.get(name) {
            Some(schedule) => {
                if !schedule.in_flight && schedule.next_due <= now {
                    let mut schedule = *schedule;
                    schedule.in_flight = true;
                    schedule.date_refresh_pending = false;
                    schedule.next_due = deadline(now, ttl);
                    schedules.set(name, schedule);
                    let taken = name.to_owned();
                    proof {
                        lemma_texts_push(claimed@, taken);
                    }
                    claimed.push(taken);
                }
            },
            None => {},
        }
        i = i + 1;
    }
    claimed
}

/// No more stations are taken than there is room for. Every one that is taken was due and
/// is now under way; every other schedule stays; and where room is left, none of the
/// stations asked is due any more.
pub proof fn claims_take_what_is_due(
    s: Map<Seq<char>, StationSchedule>,
    order: Seq<Seq<char>>,
    n: nat,
    now: u128,
    ttl: u128,
    available: nat,
)
    requires
        n <= order.len(),
    ensures
        ({
            let (after, claimed) = claims(s, order, n, now, ttl, available);
            &&& claimed.len() <= available
            &&& claimed.no_duplicates()
            &&& after.dom() == s.dom()
            &&& forall|name: Seq<char>| #[trigger]
                claimed.contains(name) ==> s.contains_key(name) && ready(s[name], now)
                    && after[name] == launched(s[name], now, ttl)
            &&& forall|name: Seq<char>|
                s.contains_key(name) && !claimed.contains(name) ==> #[trigger] after[name]
                    == s[name]
            &&& claimed.len() < available ==> forall|i: int|
                0 <= i < n && after.contains_key(#[trigger] order[i]) ==> !ready(
                    after[order[i]],
                    now,
                )
        }),
    decreases n,
{
    if n > 0 {
        let m = (n - 1) as nat;
        claims_take_what_is_due(s, order, m, now, ttl, available);
        let (before, taken) = claims(s, order, m, now, ttl, available);
        let (after, claimed) = claims(s, order, n, now, ttl, available);
        let name = order[n - 1];
        if taken.len() < available && before.contains_key(name) && ready(before[name], now) {
            assert(!taken.contains(name));
            assert(claimed == taken.push(name));
            assert(before[name] == s[name]);
            assert(claimed[taken.len() as int] == name);
            assert forall|x: Seq<char>| #[trigger] claimed.contains(x) implies s.contains_key(x)
                && ready(s[x], now) && after[x] == launched(s[x], now, ttl) by {
                if x != name {
                    let j = choose|j: int| 0 <= j < claimed.len() && claimed[j] == x;
                    assert(taken[j] == x);
                    assert(taken.contains(x));
                }
            }
            assert forall|x: Seq<char>| s.contains_key(x) && !claimed.contains(x) implies
                #[trigger] after[x] == s[x] by {
                if taken.contains(x) {
                    let j = choose|j: int| 0 <= j < taken.len() && taken[j] == x;
                    assert(claimed[j] == x);
                }
            }
            assert(after.dom() =~= s.dom());
        }
    }
}

/// A schedule after its refresh ended.
pub open spec fn landed(s: StationSchedule, at: u128, ttl: u128) -> StationSchedule {
    StationSchedule {
        in_flight: false,
        last_completed: Some(at),
        next_due: if s.date_refresh_pending {
            at
        } else {
            due_after(at, ttl)
        },
        ..s
    }
}

/// The schedules after the refresh of a station ended.
pub open spec fn job_finished(
    s: Map<Seq<char>, StationSchedule>,
    name: Seq<char>,
    at: u128,
    ttl: u128,
) -> Map<Seq<char>, StationSchedule> {
    if s.contains_key(name) {
        s.insert(name, landed(s[name], at, ttl))
    } else {
        s
    }
}

/// Takes note that the refresh of a station ended.
pub fn finish_job(schedules: &mut Schedules, name: &str, completed_at: u128, ttl: u128)
    requires
        old(schedules).wf(),
    ensures
        final(schedules).wf(),
        final(schedules)@ == job_finished(old(schedules)@, name@, completed_at, ttl),
{
    match schedules.get(name) {
        Some(schedule) => {
            let mut schedule = *schedule;
            schedule.in_flight = false;
            schedule.last_completed = Some(completed_at);
            schedule.next_due = if schedule.date_refresh_pending {
                completed_at
            } else {
                deadline(completed_at, ttl)
            };
            schedules.set(name, schedule);
        },
        None => {},
    }
}

/// A change of the local date while a station is refreshed makes it due as soon as that
/// refresh ends.
pub proof fn date_change_outlasts_a_refresh(
    s: StationSchedule,
    changed_at: u128,
    index: int,
    at: u128,
    ttl: u128,
)
    requires
        s.in_flight,
    ensures
        ready(landed(redated(s, changed_at, index), at, ttl), at),
{
}

/// How long until a schedule is due.
pub open spec fn time_left(s: StationSchedule, now: u128) -> int {
    if s.next_due <= now {
        0
    } else {
        s.next_due - now
    }
}

/// `wait` is the time until the next station is due for which there is room.
pub open spec fn next_wait(
    s: Map<Seq<char>, StationSchedule>,
    now: u128,
    active_jobs: nat,
    wait: u128,
) -> bool {
    if active_jobs >= MAX_CONCURRENT_REFRESHES {
        wait == FALLBACK_WAKE
    } else if forall|name: Seq<char>| #[trigger] s.contains_key(name) ==> s[name].in_flight {
        wait == FALLBACK_WAKE
    } else {
        &&& forall|name: Seq<char>| #[trigger]
            s.contains_key(name) && !s[name].in_flight ==> wait <= time_left(s[name], now)
        &&& exists|name: Seq<char>| #[trigger]
            s.contains_key(name) && !s[name].in_flight && wait == time_left(s[name], now)
    }
}

/// The time until the next station is due for which there is room.
pub fn next_scheduler_wait(schedules: &Schedules, now: u128, active_jobs: usize) -> (r: u128)
    requires
        schedules.wf(),
    ensures
        next_wait(schedules@, now, active_jobs as nat, r),
{
    if active_jobs >= MAX_CONCURRENT_REFRESHES {
        return FALLBACK_WAKE;
    }
    let ghost s = schedules@;
    let mut best: Option<u128> = None;
    let mut i: usize = 0;
    while i < schedules.len()
        invariant
            i <= schedules.size(),
            schedules.wf(),
            s == schedules@,
            forall|j: int| 0 <= j < i ==> s.contains_key(#[trigger] schedules.key(j)),
            match best {
                None => forall|j: int| 0 <= j < i ==> s[#[trigger] schedules.key(j)].in_flight,
                Some(w) => {
                    &&& forall|j: int|
                        0 <= j < i && !s[#[trigger] schedules.key(j)].in_flight ==> w
                            <= time_left(s[schedules.key(j)], now)
                    &&& exists|j: int|
                        0 <= j < i && !s[#[trigger] schedules.key(j)].in_flight && w
                            == time_left(s[schedules.key(j)], now)
                },
            },
        decreases schedules.size() - i,
    {
        let (_, schedule) = schedules.at(i);
        assert(*schedule == s[schedules.key(i as int)]);
        if !schedule.in_flight {
            let left: u128 = if schedule.next_due <= now {
                0
            } else {
                schedule.next_due - now
            };
            match best {
                Some(w) => {
                    if left < w {
                        best = Some(left);
                    }
                },
                None => {
                    best = Some(left);
                },
            }
        }
        i = i + 1;
    }
    proof {
        schedules.keys_are_listed();
    }
    match best {
        Some(wait) => wait,
        None => FALLBACK_WAKE,
    }
}

/// The state of the refresh loop.
#[derive(Debug)]
pub struct Scheduler {
    station_order: Vec<String>,
    ttl: u128,
    schedules: Schedules,
    last_local_date: Option<String>,
    active_jobs: usize,
}

/// The state of the refresh loop.
pub struct SchedulerView {
    /// The enabled stations, in order.
    pub order: Seq<Seq<char>>,
    /// How long a report serves.
    pub ttl: u128,
    /// When each station is to be refreshed.
    pub schedules: Map<Seq<char>, StationSchedule>,
    /// The local date when the loop last looked.
    pub last_local_date: Option<Seq<char>>,
    /// How many refreshes are under way.
    pub active_jobs: nat,
}

/// What the loop does next.
#[derive(Debug)]
pub struct Wake {
    /// The stations to refresh now.
    pub start: Vec<String>,
    /// How long to sleep, unless something happens.
    pub wait: u128,
}

impl View for Scheduler {
    type V = SchedulerView;

    closed spec fn view(&self) -> SchedulerView {
        SchedulerView {
            order: text::texts(self.station_order@),
            ttl: self.ttl,
            schedules: self.schedules@,
            last_local_date: text::opt_text(self.last_local_date),
            active_jobs: self.active_jobs as nat,
        }
    }
}

/// The local date changed since the loop last looked.
pub open spec fn new_day(last: Option<Seq<char>>, local: Option<(Seq<char>, u128)>) -> bool {
    match (last, local) {
        (Some(last), Some((date, _))) => last != date,
        _ => false,
    }
}

/// The schedules after a look at the local date.
pub open spec fn dated_schedules(
    s: SchedulerView,
    now: u128,
    local: Option<(Seq<char>, u128)>,
) -> Map<Seq<char>, StationSchedule> {
    if new_day(s.last_local_date, local) {
        date_refreshed(s.schedules, s.order, s.order.len(), now)
    } else {
        s.schedules
    }
}

/// How many refreshes may be started.
pub open spec fn room(active_jobs: nat) -> nat {
    if active_jobs <= MAX_CONCURRENT_REFRESHES {
        (MAX_CONCURRENT_REFRESHES - active_jobs) as nat
    } else {
        0
    }
}

/// The loop woke up: `t` is its state afterwards, `start` what it starts, `wait` how long
/// it sleeps.
pub open spec fn woken(
    s: SchedulerView,
    now: u128,
    local: Option<(Seq<char>, u128)>,
    t: SchedulerView,
    start: Seq<Seq<char>>,
    wait: u128,
) -> bool {
    let (schedules, claimed) = claims(
        dated_schedules(s, now, local),
        s.order,
        s.order.len(),
        now,
        s.ttl,
        room(s.active_jobs),
    );
    &&& start == claimed
    &&& t.order == s.order
    &&& t.ttl == s.ttl
    &&& t.schedules == schedules
    &&& t.last_local_date == match local {
        Some((date, _)) => Some(date),
        None => s.last_local_date,
    }
    &&& t.active_jobs == s.active_jobs + claimed.len()
    &&& exists|w: u128| #[trigger]
        next_wait(schedules, now, t.active_jobs, w) && wait == shortest(w, local)
}

/// The shortest of the three waits.
pub open spec fn shortest(w: u128, local: Option<(Seq<char>, u128)>) -> u128 {
    let d = match local {
        Some((_, d)) => d,
        None => FALLBACK_WAKE,
    };
    if w <= d && w <= FALLBACK_WAKE {
        w
    } else if d <= FALLBACK_WAKE {
        d
    } else {
        FALLBACK_WAKE
    }
}

/// What a time stamp and a time zone say of the local day: nothing, where the day or its
/// end cannot be told.
pub open spec fn local_day(
    unix_ms: i64,
    timezone: Seq<char>,
    local: Option<(Seq<char>, u128)>,
) -> bool {
    if clock::change_fault(unix_ms as int, timezone) is Some {
        local is None
    } else {
        &&& local matches Some((date, wait))
        &&& date == clock::zoned_date(unix_ms, timezone)
        &&& wait % MILLISECOND == 0
        &&& clock::leaves_date(unix_ms as int, (wait / MILLISECOND) as int, timezone)
    }
}

/// A local date with the time until it ends.
pub open spec fn day_view(local: Option<(String, u128)>) -> Option<(Seq<char>, u128)> {
    match local {
        Some((date, wait)) => Some((date@, wait)),
        None => None,
    }
}

/// The local date with the time until it ends, where both can be told.
pub fn local_day_at(unix_ms: i64, timezone: &str) -> (r: Option<(String, u128)>)
    ensures
        local_day(unix_ms, timezone@, day_view(r)),
{
    match clock::local_date_and_next_change(unix_ms, timezone) {
        Ok((date, wait_ms)) => Some((date, MILLISECOND * wait_ms as u128)),
        Err(_) => None,
    }
}

impl Scheduler {
    /// Each station has one schedule, and no more refreshes are under way than may be.
    pub closed spec fn wf(self) -> bool {
        &&& self.schedules.wf()
        &&& self.active_jobs <= MAX_CONCURRENT_REFRESHES
    }

    /// There is never more under way than may be.
    pub proof fn stays_within_limit(self)
        requires
            self.wf(),
        ensures
            self@.active_jobs <= MAX_CONCURRENT_REFRESHES,
    {
    }

    /// The loop at its start.
    pub fn start(config: &AppConfig, now: u128, local: Option<(String, u128)>) -> (r: Scheduler)
        ensures
            r.wf(),
            r@.order == enabled_names(config.stations@, config.stations@.len()),
            r@.ttl == ttl_of(config.updater.weather_ttl_seconds),
            r@.schedules == reconciled(Map::empty(), r@.order, now, r@.ttl),
            r@.last_local_date == match day_view(local) {
                Some((date, _)) => Some(date),
                None => None,
            },
            r@.active_jobs == 0,
    {
        let station_order = enabled_stations(config);
        let ttl = weather_ttl(config);
        let mut schedules = TextMap::new();
        reconcile_schedules(&mut schedules, &station_order, now, ttl);
        let last_local_date = match local {
            Some((date, _)) => Some(date),
            None => None,
        };
        Scheduler { station_order, ttl, schedules, last_local_date, active_jobs: 0 }
    }

    /// The loop takes over a changed configuration.
    pub fn reconfigure(&mut self, config: &AppConfig, now: u128)
        requires
            old(self).wf(),
        ensures
            final(self).wf(),
            final(self)@ == ({
                let order = enabled_names(config.stations@, config.stations@.len());
                let ttl = ttl_of(config.updater.weather_ttl_seconds);
                SchedulerView {
                    order,
                    ttl,
                    schedules: reconciled(old(self)@.schedules, order, now, ttl),
                    ..old(self)@
                }
            }),
    {
        self.station_order = enabled_stations(config);
        self.ttl = weather_ttl(config);
        reconcile_schedules(&mut self.schedules, &self.station_order, now, self.ttl);
    }

    /// The loop wakes up with the local day given: after a change of the date every
    /// station is due again; what is due is started while there is room.
    pub fn wake_on(&mut self, now: u128, local: Option<(String, u128)>) -> (r: Wake)
        requires
            old(self).wf(),
        ensures
            final(self).wf(),
            woken(old(self)@, now, day_view(local), final(self)@, text::texts(r.start@), r.wait),
    {
        let ghost s = self@;
        let ghost day = day_view(local);
        let mut date_wait: u128 = FALLBACK_WAKE;
        match local {
            Some((date, wait)) => {
                date_wait = wait;
                let changed = match &self.last_local_date {
                    Some(last) => !text::same(last.as_str(), date.as_str()),
                    None => false,
                };
                if changed {
                    schedule_date_refresh(&mut self.schedules, &self.station_order, now);
                }
                self.last_local_date = Some(date);
            },
            None => {},
        }
        assert(self.schedules@ == dated_schedules(s, now, day));
        let available: usize = MAX_CONCURRENT_REFRESHES - self.active_jobs;
        proof {
            claims_take_what_is_due(
                self.schedules@,
                s.order,
                s.order.len(),
                now,
                s.ttl,
                available as nat,
            );
        }
        let start = claim_due_stations(
            &self.station_order,
            &mut self.schedules,
            now,
            self.ttl,
            available,
        );
        assert(text::texts(start@).len() == start@.len());
        self.active_jobs = self.active_jobs + start.len();
        let due = next_scheduler_wait(&self.schedules, now, self.active_jobs);
        let wait: u128 = if due <= date_wait && due <= FALLBACK_WAKE {
            due
        } else if date_wait <= FALLBACK_WAKE {
            date_wait
        } else {
            FALLBACK_WAKE
        };
        assert(next_wait(self@.schedules, now, self@.active_jobs, due) && wait == shortest(
            due,
            day,
        ));
        assert(self@.active_jobs == s.active_jobs + start@.len());
        assert((self@.schedules, text::texts(start@)) == claims(
            dated_schedules(s, now, day),
            s.order,
            s.order.len(),
            now,
            s.ttl,
            room(s.active_jobs),
        ));
        Wake { start, wait }
    }

    /// The loop wakes up at a time stamp, in a time zone.
    pub fn wake(&mut self, now: u128, unix_ms: i64, timezone: &str) -> (r: Wake)
        requires
            old(self).wf(),
        ensures
            final(self).wf(),
            exists|local: Option<(Seq<char>, u128)>| #[trigger]
                local_day(unix_ms, timezone@, local) && woken(
                    old(self)@,
                    now,
                    local,
                    final(self)@,
                    text::texts(r.start@),
                    r.wait,
                ),
    {
        let local = local_day_at(unix_ms, timezone);
        assert(local_day(unix_ms, timezone@, day_view(local)));
        self.wake_on(now, local)
    }

    /// A refresh ended. Where its task failed, the text to report is given.
    pub fn job_ended(&mut self, name: &str, now: u128, failure: Option<&str>) -> (r: Option<String>)
        requires
            old(self).wf(),
            old(self)@.active_jobs > 0,
        ensures
            final(self).wf(),
            final(self)@ == (SchedulerView {
                schedules: job_finished(old(self)@.schedules, name@, now, old(self)@.ttl),
                active_jobs: (old(self)@.active_jobs - 1) as nat,
                ..old(self)@
            }),
            text::opt_text(r) == match failure {
                Some(m) => Some("refresh task failed: "@ + m@),
                None => None,
            },
    {
        self.active_jobs = self.active_jobs - 1;
        finish_job(&mut self.schedules, name, now, self.ttl);
        match failure {
            Some(message) => Some(text::cat("refresh task failed: ", message)),
            None => None,
        }
    }

    /// How many refreshes are under way.
    pub fn active_jobs(&self) -> (r: usize)
        ensures
            r == self@.active_jobs,
    {
        self.active_jobs
    }
}

/// The loop never sleeps longer than its longest sleep, and never past the end of the
/// local day.
pub proof fn sleep_is_bounded(
    s: SchedulerView,
    now: u128,
    local: Option<(Seq<char>, u128)>,
    t: SchedulerView,
    start: Seq<Seq<char>>,
    wait: u128,
)
    requires
        woken(s, now, local, t, start, wait),
    ensures
        wait <= FALLBACK_WAKE,
        local matches Some((_, until)) ==> wait <= until,
{
}

/// A station that is due is not slept over: where there is room for another refresh, the
/// loop has started it.
pub proof fn due_stations_are_started(
    s: SchedulerView,
    now: u128,
    local: Option<(Seq<char>, u128)>,
    t: SchedulerView,
    start: Seq<Seq<char>>,
    wait: u128,
    i: int,
)
    requires
        woken(s, now, local, t, start, wait),
        t.active_jobs < MAX_CONCURRENT_REFRESHES,
        0 <= i < s.order.len(),
        t.schedules.contains_key(s.order[i]),
    ensures
        !ready(t.schedules[s.order[i]], now),
{
    claims_take_what_is_due(
        dated_schedules(s, now, local),
        s.order,
        s.order.len(),
        now,
        s.ttl,
        room(s.active_jobs),
    );
}

/// A station whose refresh ended, with no change of the local date pending, rests until its
/// report has served: it is not ready at any instant before, and ready from then on.
pub proof fn a_refreshed_station_rests(
    s: Map<Seq<char>, StationSchedule>,
    name: Seq<char>,
    at: u128,
    ttl: u128,
    now: u128,
)
    requires
        s.contains_key(name),
        !s[name].date_refresh_pending,
        at + ttl <= 9_223_372_036_854_775_807_999_999_999,
    ensures
        job_finished(s, name, at, ttl).contains_key(name),
        !job_finished(s, name, at, ttl)[name].in_flight,
        job_finished(s, name, at, ttl)[name].next_due == at + ttl,
        now < at + ttl ==> !ready(job_finished(s, name, at, ttl)[name], now),
        now >= at + ttl ==> ready(job_finished(s, name, at, ttl)[name], now),
{
}

/// A station whose refresh ended is ready at once where the local date changed meanwhile, or
/// where the clock cannot express the end of its rest.
pub proof fn a_refreshed_station_may_be_due_at_once(
    s: Map<Seq<char>, StationSchedule>,
    name: Seq<char>,
    at: u128,
    ttl: u128,
)
    requires
        s.contains_key(name),
        s[name].date_refresh_pending || at + ttl > 9_223_372_036_854_775_807_999_999_999,
    ensures
        job_finished(s, name, at, ttl)[name].next_due == at,
        ready(job_finished(s, name, at, ttl)[name], at),
        at > 0 ==> !ready(job_finished(s, name, at, ttl)[name], (at - 1) as u128),
{
}

/// The end of a refresh is noted with the station, which keeps what is pending; no other
/// schedule changes, none is added and none goes.
pub proof fn the_end_of_a_refresh_concerns_one_station(
    s: Map<Seq<char>, StationSchedule>,
    name: Seq<char>,
    at: u128,
    ttl: u128,
    other: Seq<char>,
)
    ensures
        job_finished(s, name, at, ttl).dom() == s.dom(),
        other != name && s.contains_key(other) ==> job_finished(s, name, at, ttl)[other]
            == s[other],
        s.contains_key(name) ==> job_finished(s, name, at, ttl)[name].last_completed == Some(at),
        s.contains_key(name) ==> job_finished(s, name, at, ttl)[name].date_refresh_pending
            == s[name].date_refresh_pending,
{
    assert(job_finished(s, name, at, ttl).dom() =~= s.dom());
}

/// A station is ready where no refresh of it is under way and its time has come.
pub proof fn readiness(s: StationSchedule, now: u128)
    ensures
        s.in_flight ==> !ready(s, now),
        !s.in_flight ==> (ready(s, now) <==> now >= s.next_due),
{
}

/// A report serves for the seconds that are set, and for a second where none are.
pub proof fn reports_serve_for_seconds(seconds: u64)
    ensures
        seconds > 0 ==> ttl_of(seconds) == seconds * 1_000_000_000,
        seconds == 0 ==> ttl_of(seconds) == 1_000_000_000,
{
}

/// The first refreshes of stations stand five seconds apart.
pub proof fn first_refreshes_stand_apart(index: int)
    requires
        0 <= index,
    ensures
        index <= u32::MAX ==> delay_of(index) == 5_000_000_000 * index,
        index > u32::MAX ==> delay_of(index) == 5_000_000_000 * u32::MAX,
{
}

/// Once the schedules fit the stations, those that are listed have one and no others.
/// A new station waits five seconds for each station before it.
pub proof fn new_stations_are_staggered(
    s: Map<Seq<char>, StationSchedule>,
    order: Seq<Seq<char>>,
    now: u128,
    ttl: u128,
    i: int,
)
    requires
        order.no_duplicates(),
        0 <= i < order.len(),
        i <= u32::MAX,
        !s.contains_key(order[i]),
    ensures
        reconciled(s, order, now, ttl).contains_key(order[i]),
        !reconciled(s, order, now, ttl)[order[i]].in_flight,
        !reconciled(s, order, now, ttl)[order[i]].date_refresh_pending,
        reconciled(s, order, now, ttl)[order[i]].last_completed is None,
        now + 5_000_000_000 * i <= 9_223_372_036_854_775_807_999_999_999 ==> reconciled(
            s,
            order,
            now,
            ttl,
        )[order[i]].next_due == now + 5_000_000_000 * i,
        now + 5_000_000_000 * i > 9_223_372_036_854_775_807_999_999_999 ==> reconciled(
            s,
            order,
            now,
            ttl,
        )[order[i]].next_due == now,
{
    lemma_first_index(order, 0, i);
    assert(order.contains(order[i]));
}

/// Fitting the schedules to the stations drops every station that is no longer listed, and
/// keeps of the others all but the time at which they are due. That is the end of the rest
/// after their last refresh, unless they never had one or the local date changed.
pub proof fn listed_stations_keep_their_schedules(
    s: Map<Seq<char>, StationSchedule>,
    order: Seq<Seq<char>>,
    now: u128,
    ttl: u128,
    name: Seq<char>,
)
    requires
        s.contains_key(name),
    ensures
        reconciled(s, order, now, ttl).contains_key(name) <==> order.contains(name),
        order.contains(name) ==> {
            let before = s[name];
            let after = reconciled(s, order, now, ttl)[name];
            &&& after.in_flight == before.in_flight
            &&& after.date_refresh_pending == before.date_refresh_pending
            &&& after.last_completed == before.last_completed
            &&& before.date_refresh_pending || before.last_completed is None ==> after.next_due
                == before.next_due
            &&& !before.date_refresh_pending && before.last_completed is Some && (
            before.last_completed.unwrap() + ttl <= 9_223_372_036_854_775_807_999_999_999)
                ==> after.next_due == before.last_completed.unwrap() + ttl
            &&& !before.date_refresh_pending && before.last_completed is Some && (
            before.last_completed.unwrap() + ttl > 9_223_372_036_854_775_807_999_999_999)
                ==> after.next_due == before.last_completed.unwrap()
        },
{
}

/// After the local date changed every listed station is pending. One that is not under way
/// is due again, five seconds after the one before it; one that is under way keeps its
/// time. What was refreshed last stays known.
pub proof fn a_new_date_makes_stations_due(
    s: Map<Seq<char>, StationSchedule>,
    order: Seq<Seq<char>>,
    now: u128,
    i: int,
)
    requires
        order.no_duplicates(),
        0 <= i < order.len(),
        i <= u32::MAX,
        s.contains_key(order[i]),
        now + 5_000_000_000 * i <= 9_223_372_036_854_775_807_999_999_999,
    ensures
        date_refreshed(s, order, order.len(), now).contains_key(order[i]),
        ({
            let before = s[order[i]];
            let after = date_refreshed(s, order, order.len(), now)[order[i]];
            &&& after.date_refresh_pending
            &&& after.in_flight == before.in_flight
            &&& after.last_completed == before.last_completed
            &&& !before.in_flight ==> after.next_due == now + 5_000_000_000 * i
            &&& before.in_flight ==> after.next_due == before.next_due
        }),
{
    date_change_staggers(s, order, order.len(), now, i);
}

/// A change of the local date adds and drops no schedule, and touches those of the listed
/// stations only.
pub proof fn a_new_date_concerns_listed_stations(
    s: Map<Seq<char>, StationSchedule>,
    order: Seq<Seq<char>>,
    n: nat,
    now: u128,
    name: Seq<char>,
)
    requires
        n <= order.len(),
    ensures
        date_refreshed(s, order, n, now).dom() == s.dom(),
        s.contains_key(name) && !order.contains(name) ==> date_refreshed(s, order, n, now)[name]
            == s[name],
    decreases n,
{
    if n > 0 {
        a_new_date_concerns_listed_stations(s, order, (n - 1) as nat, now, name);
        assert(order.contains(order[n - 1]));
        assert(date_refreshed(s, order, n, now).dom() =~= s.dom());
    }
}

/// A station that is started was not under way and its time had come. It is under way then,
/// nothing is pending with it, and it is due when a report of now has served.
pub proof fn started_stations_are_under_way(
    s: Map<Seq<char>, StationSchedule>,
    order: Seq<Seq<char>>,
    n: nat,
    now: u128,
    ttl: u128,
    available: nat,
    name: Seq<char>,
)
    requires
        n <= order.len(),
        claims(s, order, n, now, ttl, available).1.contains(name),
    ensures
        s.contains_key(name),
        !s[name].in_flight,
        s[name].next_due <= now,
        exists|i: int| 0 <= i < n && #[trigger] order[i] == name,
        ({
            let after = claims(s, order, n, now, ttl, available).0[name];
            &&& after.in_flight
            &&& !after.date_refresh_pending
            &&& after.last_completed == s[name].last_completed
            &&& now + ttl <= 9_223_372_036_854_775_807_999_999_999 ==> after.next_due == now + ttl
            &&& now + ttl > 9_223_372_036_854_775_807_999_999_999 ==> after.next_due == now
        }),
    decreases n,
{
    claims_take_what_is_due(s, order, n, now, ttl, available);
    lemma_claimed_are_listed(s, order, n, now, ttl, available, name);
}

proof fn lemma_claimed_are_listed(
    s: Map<Seq<char>, StationSchedule>,
    order: Seq<Seq<char>>,
    n: nat,
    now: u128,
    ttl: u128,
    available: nat,
    name: Seq<char>,
)
    requires
        n <= order.len(),
        claims(s, order, n, now, ttl, available).1.contains(name),
    ensures
        exists|i: int| 0 <= i < n && #[trigger] order[i] == name,
    decreases n,
{
    if n > 0 {
        let m = (n - 1) as nat;
        let before = claims(s, order, m, now, ttl, available).1;
        let after = claims(s, order, n, now, ttl, available).1;
        if before.contains(name) {
            lemma_claimed_are_listed(s, order, m, now, ttl, available, name);
        } else {
            let k = choose|k: int| 0 <= k < after.len() && after[k] == name;
            if k < before.len() {
                assert(before[k] == name);
            }
            assert(order[n - 1] == name);
        }
    }
}

/// Stations are started in their order: of two that are due, the later one is not started
/// without the earlier one, which stands before it.
pub proof fn stations_are_started_in_order(
    s: Map<Seq<char>, StationSchedule>,
    order: Seq<Seq<char>>,
    now: u128,
    ttl: u128,
    available: nat,
    i: int,
    j: int,
)
    requires
        order.no_duplicates(),
        0 <= i < j < order.len(),
        s.contains_key(order[i]),
        !s[order[i]].in_flight,
        s[order[i]].next_due <= now,
        claims(s, order, order.len(), now, ttl, available).1.contains(order[j]),
    ensures
        ({
            let claimed = claims(s, order, order.len(), now, ttl, available).1;
            exists|a: int, b: int|
                0 <= a < b < claimed.len() && #[trigger] claimed[a] == order[i]
                    && #[trigger] claimed[b] == order[j]
        }),
{
    let n = order.len();
    let all = claims(s, order, n, now, ttl, available).1;
    let at_j = claims(s, order, j as nat, now, ttl, available).1;
    if at_j.len() >= available {
        lemma_claims_full(s, order, j as nat, n, now, ttl, available);
        lemma_claimed_are_listed(s, order, j as nat, now, ttl, available, order[j]);
    } else {
        lemma_claims_grow(s, order, i as nat, j as nat, now, ttl, available);
        claims_take_what_is_due(s, order, i as nat, now, ttl, available);
        let (before, taken) = claims(s, order, i as nat, now, ttl, available);
        if taken.contains(order[i]) {
            lemma_claimed_are_listed(s, order, i as nat, now, ttl, available, order[i]);
        }
        assert(before[order[i]] == s[order[i]]);
        lemma_claims_grow(s, order, (i + 1) as nat, j as nat, now, ttl, available);
        let a = taken.len() as int;
        let at_next = claims(s, order, (i + 1) as nat, now, ttl, available).1;
        assert(at_next == taken.push(order[i]));
        assert(at_next[a] == order[i]);
        assert(at_j[a] == order[i]);
        lemma_claims_grow(s, order, j as nat, n, now, ttl, available);
        assert(all[a] == order[i]);
        let b = choose|b: int| 0 <= b < all.len() && all[b] == order[j];
        if b < at_j.len() {
            assert(at_j[b] == order[j]);
            assert(at_j.contains(order[j]));
            lemma_claimed_are_listed(s, order, j as nat, now, ttl, available, order[j]);
        }
        assert(a < b);
    }
}

proof fn lemma_claims_grow(
    s: Map<Seq<char>, StationSchedule>,
    order: Seq<Seq<char>>,
    n: nat,
    m: nat,
    now: u128,
    ttl: u128,
    available: nat,
)
    requires
        n <= m <= order.len(),
    ensures
        claims(s, order, n, now, ttl, available).1.len() <= claims(
            s,
            order,
            m,
            now,
            ttl,
            available,
        ).1.len(),
        forall|k: int|
            0 <= k < claims(s, order, n, now, ttl, available).1.len() ==> claims(
                s,
                order,
                m,
                now,
                ttl,
                available,
            ).1[k] == #[trigger] claims(s, order, n, now, ttl, available).1[k],
    decreases m - n,
{
    if n < m {
        lemma_claims_grow(s, order, n, (m - 1) as nat, now, ttl, available);
    }
}

/// Where room is left no listed station is due that is not under way: none is passed over.
pub proof fn none_is_passed_over(
    s: Map<Seq<char>, StationSchedule>,
    order: Seq<Seq<char>>,
    now: u128,
    ttl: u128,
    available: nat,
    i: int,
)
    requires
        0 <= i < order.len(),
        s.contains_key(order[i]),
        !s[order[i]].in_flight,
        s[order[i]].next_due <= now,
    ensures
        claims(s, order, order.len(), now, ttl, available).1.contains(order[i]) || claims(
            s,
            order,
            order.len(),
            now,
            ttl,
            available,
        ).1.len() == available,
        claims(s, order, order.len(), now, ttl, available).1.len() <= available,
{
    claims_take_what_is_due(s, order, order.len(), now, ttl, available);
    let (after, claimed) = claims(s, order, order.len(), now, ttl, available);
    if !claimed.contains(order[i]) && claimed.len() < available {
        assert(after[order[i]] == s[order[i]]);
        assert(!ready(after[order[i]], now));
    }
}

/// The names of the enabled stations stand in the order of the configuration.
pub proof fn enabled_names_keep_their_order(stations: Seq<StationConfig>, n: nat, a: int, b: int)
    requires
        n <= stations.len(),
        0 <= a < b < enabled_names(stations, n).len(),
    ensures
        exists|i: int|
            {
                &&& 0 <= i < n
                &&& (#[trigger] stations[i]).enabled
                &&& stations[i].name@ == enabled_names(stations, n)[a]
                &&& forall|j: int|
                    0 <= j <= i && (#[trigger] stations[j]).enabled ==> stations[j].name@
                        != enabled_names(stations, n)[b]
            },
    decreases n,
{
    if n > 0 {
        let m = (n - 1) as nat;
        let before = enabled_names(stations, m);
        let after = enabled_names(stations, n);
        assert(after[a] == before[a]);
        if b < before.len() {
            enabled_names_keep_their_order(stations, m, a, b);
            assert(after[b] == before[b]);
        } else {
            enabled_names_are_unique(stations, m);
            assert(before.contains(before[a]));
            let i = choose|i: int|
                0 <= i < m && (#[trigger] stations[i]).enabled && stations[i].name@ == before[a];
            assert forall|j: int| 0 <= j <= i && (#[trigger] stations[j]).enabled implies
                stations[j].name@ != after[b] by {
                assert(before.contains(stations[j].name@));
            }
        }
    }
}

/// The loop sleeps until the first station is due that is not under way: no such station is
/// due earlier, and one is due then. Where there is none, or no room for a refresh, it
/// sleeps a minute.
pub proof fn the_sleep_ends_when_a_station_is_due(
    s: Map<Seq<char>, StationSchedule>,
    now: u128,
    active_jobs: nat,
    wait: u128,
    name: Seq<char>,
)
    requires
        next_wait(s, now, active_jobs, wait),
    ensures
        active_jobs >= 4 ==> wait == 60_000_000_000,
        active_jobs < 4 && s.contains_key(name) && !s[name].in_flight ==> wait == 0 || now + wait
            <= s[name].next_due,
        active_jobs < 4 && s.contains_key(name) && !s[name].in_flight && s[name].next_due <= now
            ==> wait == 0,
        active_jobs < 4 ==> wait == 60_000_000_000 || exists|n: Seq<char>| #[trigger]
            s.contains_key(n) && !s[n].in_flight && (s[n].next_due == now + wait || (wait == 0
                && s[n].next_due <= now)),
        active_jobs < 4 && (forall|n: Seq<char>| #[trigger]
            s.contains_key(n) ==> s[n].in_flight) ==> wait == 60_000_000_000,
{
}

/// A wake-up on a new day finds every listed station due that is not under way, five seconds
/// after the one before it; the first one is started if there is room.
pub proof fn waking_on_a_new_day(
    s: SchedulerView,
    now: u128,
    last: Seq<char>,
    date: Seq<char>,
    until: u128,
    t: SchedulerView,
    start: Seq<Seq<char>>,
    wait: u128,
    i: int,
)
    requires
        woken(s, now, Some((date, until)), t, start, wait),
        s.last_local_date == Some(last),
        last != date,
        s.order.no_duplicates(),
        0 <= i < s.order.len(),
        i <= u32::MAX,
        s.schedules.contains_key(s.order[i]),
        !s.schedules[s.order[i]].in_flight,
        now + 5_000_000_000 * i <= 9_223_372_036_854_775_807_999_999_999,
    ensures
        t.schedules.contains_key(s.order[i]),
        i > 0 ==> {
            let after = t.schedules[s.order[i]];
            &&& after.date_refresh_pending
            &&& !after.in_flight
            &&& after.next_due == now + 5_000_000_000 * i
        },
        i == 0 && s.active_jobs < 4 ==> start.contains(s.order[0]),
{
    let dated = dated_schedules(s, now, Some((date, until)));
    let available = room(s.active_jobs);
    a_new_date_makes_stations_due(s.schedules, s.order, now, i);
    claims_take_what_is_due(dated, s.order, s.order.len(), now, s.ttl, available);
    if i == 0 && s.active_jobs < 4 {
        assert(claims(dated, s.order, 0, now, s.ttl, available).1.len() == 0);
        let one = claims(dated, s.order, 1, now, s.ttl, available).1;
        assert(one[0] == s.order[0]);
        lemma_claims_grow(dated, s.order, 1, s.order.len(), now, s.ttl, available);
        assert(start[0] == s.order[0]);
    }
}

/// A wake-up on the same day, or where the day cannot be told, changes the schedules of the
/// stations that it starts and of no others.
pub proof fn waking_on_the_same_day(
    s: SchedulerView,
    now: u128,
    local: Option<(Seq<char>, u128)>,
    t: SchedulerView,
    start: Seq<Seq<char>>,
    wait: u128,
    name: Seq<char>,
)
    requires
        woken(s, now, local, t, start, wait),
        local is None || s.last_local_date is None || s.last_local_date == Some(
            local.unwrap().0,
        ),
        s.schedules.contains_key(name),
    ensures
        t.schedules.contains_key(name),
        !start.contains(name) ==> t.schedules[name] == s.schedules[name],
        start.contains(name) ==> !s.schedules[name].in_flight && s.schedules[name].next_due <= now
            && t.schedules[name].in_flight,
{
    let available = room(s.active_jobs);
    claims_take_what_is_due(s.schedules, s.order, s.order.len(), now, s.ttl, available);
}

/// A wake-up remembers the day that it saw, counts what it starts, and never has more than
/// four refreshes under way.
pub proof fn waking_keeps_count(
    s: SchedulerView,
    now: u128,
    local: Option<(Seq<char>, u128)>,
    t: SchedulerView,
    start: Seq<Seq<char>>,
    wait: u128,
)
    requires
        woken(s, now, local, t, start, wait),
    ensures
        t.active_jobs == s.active_jobs + start.len(),
        s.active_jobs <= 4 ==> t.active_jobs <= 4,
        s.active_jobs >= 4 ==> start.len() == 0,
        local is Some ==> t.last_local_date == Some(local.unwrap().0),
        local is None ==> t.last_local_date == s.last_local_date,
        wait <= 60_000_000_000,
        wait == 60_000_000_000 || (local is Some && wait == local.unwrap().1) || exists|
            n: Seq<char>,
        | #[trigger]
            t.schedules.contains_key(n) && !t.schedules[n].in_flight && (
            t.schedules[n].next_due == now + wait || (wait == 0 && t.schedules[n].next_due
                <= now)),
{
    let dated = dated_schedules(s, now, local);
    claims_take_what_is_due(
        dated,
        s.order,
        s.order.len(),
        now,
        s.ttl,
        room(s.active_jobs),
    );
}

/// A wake-up does not sleep over a station that is due later and not under way.
pub proof fn no_due_station_is_slept_over(
    s: SchedulerView,
    now: u128,
    local: Option<(Seq<char>, u128)>,
    t: SchedulerView,
    start: Seq<Seq<char>>,
    wait: u128,
    name: Seq<char>,
)
    requires
        woken(s, now, local, t, start, wait),
        t.active_jobs < 4,
        t.schedules.contains_key(name),
        !t.schedules[name].in_flight,
    ensures
        wait == 0 || now + wait <= t.schedules[name].next_due,
{
}

/// The local day is known where its date and its end are: it has that date, and the wait
/// leads, in nanoseconds, to the first millisecond that has another one.
pub proof fn local_days_end_with_their_date(
    unix_ms: i64,
    timezone: Seq<char>,
    local: Option<(Seq<char>, u128)>,
)
    requires
        local_day(unix_ms, timezone, local),
    ensures
        local is None <==> clock::change_fault(unix_ms as int, timezone) is Some,
        local matches Some((date, wait)) ==> {
            let ms = wait as int / 1_000_000;
            &&& date == clock::zoned_date(unix_ms, timezone)
            &&& wait == ms * 1_000_000
            &&& 1 <= ms <= 172_800_000
            &&& clock::zoned_date((unix_ms + ms) as i64, timezone) != date
            &&& clock::zoned_date((unix_ms + ms - 1) as i64, timezone) == date
        },
{
}

/// A local day is seen as its date and the time until it ends.
pub proof fn local_days_are_seen(date: String, wait: u128)
    ensures
        day_view(None) is None,
        day_view(Some((date, wait))) == Some((date@, wait)),
{
}

/// There is room for as many refreshes as are missing to four.
pub proof fn room_is_what_is_missing(active_jobs: nat)
    ensures
        active_jobs <= 4 ==> room(active_jobs) + active_jobs == 4,
        active_jobs > 4 ==> room(active_jobs) == 0,
{
}

} // verus!
