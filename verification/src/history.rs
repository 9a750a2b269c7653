//! Temperature history: the daily range of past days and of the days ahead.

use vstd::prelude::*;
use crate::dates::{self, CivilDate};
use crate::reading::{self, Reading};
use crate::report::WeatherSnapshot;
use crate::text;

verus! {

/// How many days a history page has unless asked otherwise.
pub const DEFAULT_HISTORY_PAGE_SIZE: u32 = 7;

/// How many days a history page has at most.
pub const MAX_HISTORY_PAGE_SIZE: u32 = 31;

/// The temperatures forecast for one day.
#[derive(Debug)]
pub struct ForecastTemperatures {
    pub date: String,
    pub high: Option<Reading>,
    pub low: Option<Reading>,
}

/// The temperature range charted for one day.
#[derive(Debug)]
pub struct ChartedRange {
    pub date: Option<String>,
    pub max: Option<Reading>,
    pub min: Option<Reading>,
}

/// One temperature that was observed.
#[derive(Debug)]
pub struct ObservedTemperature {
    pub time: Option<String>,
    pub temperature: Option<Reading>,
}

/// The temperatures of a snapshot.
#[derive(Debug)]
pub struct Temperatures {
    pub forecast: Option<Vec<ForecastTemperatures>>,
    pub charts: Vec<ChartedRange>,
    pub passed: Vec<ObservedTemperature>,
}

/// The temperatures of the snapshot that is kept for one day.
#[derive(Debug)]
pub struct StoredTemperatures {
    pub date: String,
    pub temperatures: Temperatures,
}

/// The temperature range of a day.
#[derive(Clone, Copy, Debug, PartialEq, Eq, Structural)]
pub struct TemperatureRange {
    pub max: Option<Reading>,
    pub min: Option<Reading>,
}

/// One day of the history.
#[derive(Debug, PartialEq, Eq)]
pub struct DailyTemperaturePoint {
    pub date: String,
    pub max_temperature: Option<Reading>,
    pub min_temperature: Option<Reading>,
    pub forecast: bool,
}

/// A character that marks degrees.
pub open spec fn degree_sign(c: char) -> bool {
    c == '°' || c == '℃'
}

/// `s` without the degree signs at its end.
pub open spec fn without_degrees(s: Seq<char>) -> Seq<char>
    decreases s.len(),
{
    if s.len() > 0 && degree_sign(s.last()) {
        without_degrees(s.drop_last())
    } else {
        s
    }
}

/// The numeral of a temperature text: without degree signs and white space.
pub open spec fn numeral_of(s: Seq<char>) -> Seq<char> {
    text::trimmed(without_degrees(text::trimmed(s)))
}

proof fn lemma_skip_degrees(s: Seq<char>, end: int)
    requires
        0 <= end <= s.len(),
        forall|i: int| end <= i < s.len() ==> degree_sign(#[trigger] s[i]),
        end == 0 || !degree_sign(s[end - 1]),
    ensures
        without_degrees(s) == s.subrange(0, end),
    decreases s.len() - end,
{
    if end < s.len() {
        lemma_skip_degrees(s.drop_last(), end);
        assert(s.drop_last().subrange(0, end) =~= s.subrange(0, end));
    } else {
        assert(s.subrange(0, end) =~= s);
    }
}

/// The numeral of a temperature text.
pub fn temperature_numeral(value: &str) -> (r: &str)
    ensures
        r@ == numeral_of(value@),
{
    let trimmed = text::trim(value);
    let chars = text::chars_of(trimmed);
    let mut end: usize = chars.len();
    while end > 0 && (chars[end - 1] == '°' || chars[end - 1] == '℃')
        invariant
            end <= chars@.len(),
            forall|i: int| end <= i < chars@.len() ==> degree_sign(#[trigger] chars@[i]),
        decreases end,
    {
        end = end - 1;
    }
    proof {
        lemma_skip_degrees(trimmed@, end as int);
    }
    text::trim(trimmed.substring_char(0, end))
}

/// `r` is the numeral of an optional temperature text.
pub open spec fn optional_numeral(value: Option<String>) -> Option<Seq<char>> {
    match value {
        Some(v) => Some(numeral_of(v@)),
        None => None,
    }
}

fn numeral_text(value: &Option<String>) -> (r: Option<String>)
    ensures
        text::opt_text(r) == optional_numeral(*value),
{
    match value {
        Some(v) => Some(temperature_numeral(v.as_str()).to_owned()),
        None => None,
    }
}

/// The numerals of the day and night temperatures of a forecast, day by day.
pub fn forecast_numerals(snapshot: &WeatherSnapshot) -> (r: Vec<(Option<String>, Option<String>)>)
    ensures
        match snapshot.predict {
            None => r@.len() == 0,
            Some(p) => {
                &&& r@.len() == p.days@.len()
                &&& forall|i: int|
                    0 <= i < p.days@.len() ==> {
                        &&& text::opt_text((#[trigger] r@[i]).0) == optional_numeral(
                            p.days@[i].day_temperature,
                        )
                        &&& text::opt_text(r@[i].1) == optional_numeral(
                            p.days@[i].night_temperature,
                        )
                    }
            },
        },
{
    let mut r: Vec<(Option<String>, Option<String>)> = Vec::new();
    match &snapshot.predict {
        None => {},
        Some(p) => {
            let mut i: usize = 0;
            while i < p.days.len()
                invariant
                    i <= p.days@.len(),
                    r@.len() == i,
                    forall|k: int|
                        0 <= k < i ==> {
                            &&& text::opt_text((#[trigger] r@[k]).0) == optional_numeral(
                                p.days@[k].day_temperature,
                            )
                            &&& text::opt_text(r@[k].1) == optional_numeral(
                                p.days@[k].night_temperature,
                            )
                        },
                decreases p.days@.len() - i,
            {
                r.push(
                    (
                        numeral_text(&p.days[i].day_temperature),
                        numeral_text(&p.days[i].night_temperature),
                    ),
                );
                i = i + 1;
            }
        },
    }
    r
}

/// `t` holds the temperatures of the snapshot, those of the forecast as the given
/// readings of their numerals.
pub open spec fn temperatures_from(
    t: Temperatures,
    s: WeatherSnapshot,
    readings: Seq<(Option<Reading>, Option<Reading>)>,
) -> bool {
    &&& t.forecast is Some <==> s.predict is Some
    &&& t.forecast matches Some(f) ==> {
        &&& f@.len() == s.predict->0.days@.len()
        &&& forall|i: int|
            0 <= i < f@.len() ==> {
                &&& (#[trigger] f@[i]).date == s.predict->0.days@[i].date
                &&& f@[i].high == readings[i].0
                &&& f@[i].low == readings[i].1
            }
    }
    &&& t.charts@.len() == s.tempchart@.len()
    &&& forall|i: int|
        0 <= i < t.charts@.len() ==> {
            &&& (#[trigger] t.charts@[i]).date == s.tempchart@[i].date
            &&& t.charts@[i].max == s.tempchart@[i].max_temperature
            &&& t.charts@[i].min == s.tempchart@[i].min_temperature
        }
    &&& t.passed@.len() == s.passedchart@.len()
    &&& forall|i: int|
        0 <= i < t.passed@.len() ==> {
            &&& (#[trigger] t.passed@[i]).time == s.passedchart@[i].time
            &&& t.passed@[i].temperature == s.passedchart@[i].temperature
        }
}

impl Temperatures {
    /// The temperatures of a snapshot, given the readings of the numerals of its
    /// forecast.
    pub fn of(
        snapshot: &WeatherSnapshot,
        readings: &Vec<(Option<Reading>, Option<Reading>)>,
    ) -> (t: Temperatures)
        requires
            snapshot.predict matches Some(p) ==> readings@.len() == p.days@.len(),
        ensures
            temperatures_from(t, *snapshot, readings@),
    {
        let forecast = match &snapshot.predict {
            None => None,
            Some(p) => {
                let mut f: Vec<ForecastTemperatures> = Vec::new();
                let mut i: usize = 0;
                while i < p.days.len()
                    invariant
                        i <= p.days@.len(),
                        f@.len() == i,
                        readings@.len() == p.days@.len(),
                        forall|k: int|
                            0 <= k < i ==> {
                                &&& (#[trigger] f@[k]).date == p.days@[k].date
                                &&& f@[k].high == readings@[k].0
                                &&& f@[k].low == readings@[k].1
                            },
                    decreases p.days@.len() - i,
                {
                    f.push(
                        ForecastTemperatures {
                            date: p.days[i].date.clone(),
                            high: readings[i].0,
                            low: readings[i].1,
                        },
                    );
                    i = i + 1;
                }
                Some(f)
            },
        };
        let mut charts: Vec<ChartedRange> = Vec::new();
        let mut i: usize = 0;
        while i < snapshot.tempchart.len()
            invariant
                i <= snapshot.tempchart@.len(),
                charts@.len() == i,
                forall|k: int|
                    0 <= k < i ==> {
                        &&& (#[trigger] charts@[k]).date == snapshot.tempchart@[k].date
                        &&& charts@[k].max == snapshot.tempchart@[k].max_temperature
                        &&& charts@[k].min == snapshot.tempchart@[k].min_temperature
                    },
            decreases snapshot.tempchart@.len() - i,
        {
            let chart = &snapshot.tempchart[i];
            charts.push(
                ChartedRange {
                    date: text::copy_optional(&chart.date),
                    max: chart.max_temperature,
                    min: chart.min_temperature,
                },
            );
            i = i + 1;
        }
        let mut passed: Vec<ObservedTemperature> = Vec::new();
        let mut j: usize = 0;
        while j < snapshot.passedchart.len()
            invariant
                j <= snapshot.passedchart@.len(),
                passed@.len() == j,
                forall|k: int|
                    0 <= k < j ==> {
                        &&& (#[trigger] passed@[k]).time == snapshot.passedchart@[k].time
                        &&& passed@[k].temperature == snapshot.passedchart@[k].temperature
                    },
            decreases snapshot.passedchart@.len() - j,
        {
            let row = &snapshot.passedchart[j];
            passed.push(
                ObservedTemperature { time: text::copy_optional(&row.time), temperature: row.temperature },
            );
            j = j + 1;
        }
        Temperatures { forecast, charts, passed }
    }
}

/// The optional text gives the date, read around it.
pub open spec fn gives(value: Option<String>, date: CivilDate) -> bool {
    value matches Some(v) && dates::relative_date(v@, date) == Some(date)
}

/// The first chart from `i` on that is of the date.
pub open spec fn dated_chart(charts: Seq<ChartedRange>, i: int, date: CivilDate) -> Option<int>
    decreases charts.len() - i,
{
    if i < 0 || i >= charts.len() {
        None
    } else if gives(charts[i].date, date) {
        Some(i)
    } else {
        dated_chart(charts, i + 1, date)
    }
}

pub(crate) proof fn lemma_chart_in_range(charts: Seq<ChartedRange>, i: int, date: CivilDate)
    ensures
        dated_chart(charts, i, date) matches Some(k) ==> i <= k < charts.len(),
    decreases charts.len() - i,
{
    if 0 <= i < charts.len() && !gives(charts[i].date, date) {
        lemma_chart_in_range(charts, i + 1, date);
    }
}

/// The chart of the date: the first that says so, or the only one there is where it
/// says nothing.
pub open spec fn chart_of(charts: Seq<ChartedRange>, date: CivilDate) -> Option<int> {
    match dated_chart(charts, 0, date) {
        Some(i) => Some(i),
        None => if charts.len() == 1 && (charts[0].date matches Some(v) ==> text::blank(v@)) {
            Some(0)
        } else {
            None
        },
    }
}

/// The chart of the date.
pub fn chart_index(charts: &Vec<ChartedRange>, date: CivilDate) -> (r: Option<usize>)
    requires
        date.valid(),
    ensures
        match r {
            Some(i) => i < charts@.len() && chart_of(charts@, date) == Some(i as int),
            None => chart_of(charts@, date) is None,
        },
{
    let mut i: usize = 0;
    while i < charts.len()
        invariant
            i <= charts@.len(),
            date.valid(),
            dated_chart(charts@, 0, date) == dated_chart(charts@, i as int, date),
        decreases charts@.len() - i,
    {
        if dates::optional_gives_date(&charts[i].date, date) {
            return Some(i);
        }
        i = i + 1;
    }
    if charts.len() == 1 {
        let undated = match &charts[0].date {
            Some(v) => text::is_blank(v.as_str()),
            None => true,
        };
        if undated {
            return Some(0);
        }
    }
    None
}

/// The first forecast day from `i` on that is of the date.
pub open spec fn dated_forecast(
    days: Seq<ForecastTemperatures>,
    i: int,
    date: CivilDate,
) -> Option<int>
    decreases days.len() - i,
{
    if i < 0 || i >= days.len() {
        None
    } else if dates::relative_date(days[i].date@, date) == Some(date) {
        Some(i)
    } else {
        dated_forecast(days, i + 1, date)
    }
}

pub(crate) proof fn lemma_forecast_in_range(
    days: Seq<ForecastTemperatures>,
    i: int,
    date: CivilDate,
)
    ensures
        dated_forecast(days, i, date) matches Some(k) ==> i <= k < days.len(),
    decreases days.len() - i,
{
    if 0 <= i < days.len() && dates::relative_date(days[i].date@, date) != Some(date) {
        lemma_forecast_in_range(days, i + 1, date);
    }
}

/// The forecast day of the date, where there is a forecast.
pub open spec fn forecast_of(
    forecast: Option<Vec<ForecastTemperatures>>,
    date: CivilDate,
) -> Option<int> {
    match forecast {
        Some(days) => dated_forecast(days@, 0, date),
        None => None,
    }
}

/// The forecast day of the date.
pub fn forecast_index(forecast: &Option<Vec<ForecastTemperatures>>, date: CivilDate) -> (r: Option<
    usize,
>)
    requires
        date.valid(),
    ensures
        match r {
            Some(i) => {
                &&& forecast is Some
                &&& i < forecast->0@.len()
                &&& forecast_of(*forecast, date) == Some(i as int)
            },
            None => forecast_of(*forecast, date) is None,
        },
{
    match forecast {
        None => None,
        Some(days) => {
            let mut i: usize = 0;
            while i < days.len()
                invariant
                    i <= days@.len(),
                    date.valid(),
                    *forecast == Some(*days),
                    dated_forecast(days@, 0, date) == dated_forecast(days@, i as int, date),
                decreases days@.len() - i,
            {
                if dates::gives_date(days[i].date.as_str(), date) {
                    return Some(i);
                }
                i = i + 1;
            }
            None
        },
    }
}

/// The row counts for the date: it has a temperature, and its time does not give
/// another date.
pub open spec fn counts(row: ObservedTemperature, date: CivilDate) -> bool {
    row.temperature is Some && match row.time {
        None => true,
        Some(t) => match dates::relative_date(t@, date) {
            None => true,
            Some(d) => d == date,
        },
    }
}

/// The greatest temperature among the first `n` rows that count.
pub open spec fn greatest(
    rows: Seq<ObservedTemperature>,
    n: nat,
    date: CivilDate,
) -> Option<Reading>
    decreases n,
{
    if n == 0 {
        None
    } else {
        let so_far = greatest(rows, (n - 1) as nat, date);
        if counts(rows[n - 1], date) {
            match so_far {
                None => rows[n - 1].temperature,
                Some(r) => Some(reading::greater(r, rows[n - 1].temperature->0)),
            }
        } else {
            so_far
        }
    }
}

/// The least temperature among the first `n` rows that count.
pub open spec fn least(rows: Seq<ObservedTemperature>, n: nat, date: CivilDate) -> Option<Reading>
    decreases n,
{
    if n == 0 {
        None
    } else {
        let so_far = least(rows, (n - 1) as nat, date);
        if counts(rows[n - 1], date) {
            match so_far {
                None => rows[n - 1].temperature,
                Some(r) => Some(reading::lesser(r, rows[n - 1].temperature->0)),
            }
        } else {
            so_far
        }
    }
}

/// The range, completed from another one.
pub open spec fn filled(r: TemperatureRange, other: TemperatureRange) -> TemperatureRange {
    TemperatureRange {
        max: if r.max is Some {
            r.max
        } else {
            other.max
        },
        min: if r.min is Some {
            r.min
        } else {
            other.min
        },
    }
}

/// The range of the chart of the date.
pub open spec fn charted(t: Temperatures, date: CivilDate) -> TemperatureRange {
    match chart_of(t.charts@, date) {
        Some(i) => TemperatureRange { max: t.charts@[i].max, min: t.charts@[i].min },
        None => TemperatureRange { max: None, min: None },
    }
}

/// The range forecast for the date.
pub open spec fn forecasted(t: Temperatures, date: CivilDate) -> TemperatureRange {
    match forecast_of(t.forecast, date) {
        Some(i) => TemperatureRange { max: t.forecast->0@[i].high, min: t.forecast->0@[i].low },
        None => TemperatureRange { max: None, min: None },
    }
}

/// The range of a past day: charted, else observed, else forecast, each end for itself.
pub open spec fn past_range(t: Temperatures, date: CivilDate) -> TemperatureRange {
    filled(
        filled(
            charted(t, date),
            TemperatureRange {
                max: greatest(t.passed@, t.passed@.len(), date),
                min: least(t.passed@, t.passed@.len(), date),
            },
        ),
        forecasted(t, date),
    )
}

impl TemperatureRange {
    /// One end of the range is known.
    pub open spec fn known(self) -> bool {
        self.max is Some || self.min is Some
    }

    /// Whether one end of the range is known.
    pub fn usable(self) -> (r: bool)
        ensures
            r == self.known(),
    {
        self.max.is_some() || self.min.is_some()
    }

    /// The range, completed from another one.
    pub fn fill_missing(self, other: TemperatureRange) -> (r: TemperatureRange)
        ensures
            r == filled(self, other),
    {
        TemperatureRange {
            max: if self.max.is_some() {
                self.max
            } else {
                other.max
            },
            min: if self.min.is_some() {
                self.min
            } else {
                other.min
            },
        }
    }
}

fn row_counts(row: &ObservedTemperature, date: CivilDate) -> (r: bool)
    requires
        date.valid(),
    ensures
        r == counts(*row, date),
{
    row.temperature.is_some() && match &row.time {
        None => true,
        Some(t) => match dates::parse_relative_date(t.as_str(), date) {
            None => true,
            Some(d) => dates::same_date(d, date),
        },
    }
}

fn observed_range(rows: &Vec<ObservedTemperature>, date: CivilDate) -> (r: TemperatureRange)
    requires
        date.valid(),
    ensures
        r.max == greatest(rows@, rows@.len(), date),
        r.min == least(rows@, rows@.len(), date),
{
    let mut max: Option<Reading> = None;
    let mut min: Option<Reading> = None;
    let mut i: usize = 0;
    while i < rows.len()
        invariant
            i <= rows@.len(),
            date.valid(),
            max == greatest(rows@, i as nat, date),
            min == least(rows@, i as nat, date),
        decreases rows@.len() - i,
    {
        if row_counts(&rows[i], date) {
            match rows[i].temperature {
                Some(t) => {
                    max = match max {
                        None => Some(t),
                        Some(r) => Some(reading::max_reading(r, t)),
                    };
                    min = match min {
                        None => Some(t),
                        Some(r) => Some(reading::min_reading(r, t)),
                    };
                },
                None => {},
            }
        }
        i = i + 1;
    }
    TemperatureRange { max, min }
}

/// The range of a past day.
pub fn historical_range(t: &Temperatures, date: CivilDate) -> (r: TemperatureRange)
    requires
        date.valid(),
    ensures
        r == past_range(*t, date),
{
    let charted = match chart_index(&t.charts, date) {
        Some(i) => TemperatureRange { max: t.charts[i].max, min: t.charts[i].min },
        None => TemperatureRange { max: None, min: None },
    };
    let range = charted.fill_missing(observed_range(&t.passed, date));
    match (forecast_index(&t.forecast, date), &t.forecast) {
        (Some(i), Some(days)) => range.fill_missing(
            TemperatureRange { max: days[i].high, min: days[i].low },
        ),
        _ => range,
    }
}

/// A day of the history under its date.
#[derive(Clone, Copy, Debug, PartialEq, Eq, Structural)]
pub struct Slot {
    pub date: CivilDate,
    pub max: Option<Reading>,
    pub min: Option<Reading>,
    pub forecast: bool,
}

/// The slots are in the order of their dates, each date once, and hold what the map
/// holds.
pub open spec fn represents(slots: Seq<Slot>, m: Map<CivilDate, Slot>) -> bool {
    &&& forall|i: int, j: int|
        0 <= i < j < slots.len() ==> (#[trigger] slots[i]).date.rank() < (
        #[trigger] slots[j]).date.rank()
    &&& forall|i: int|
        0 <= i < slots.len() ==> {
            &&& (#[trigger] slots[i]).date.valid()
            &&& m.contains_key(slots[i].date)
            &&& m[slots[i].date] == slots[i]
        }
    &&& forall|d: CivilDate| #[trigger]
        m.contains_key(d) ==> exists|i: int| 0 <= i < slots.len() && (#[trigger] slots[i]).date == d
}

/// The days of the first `n` kept snapshots that have a known range.
pub open spec fn past_days(history: Seq<StoredTemperatures>, n: nat) -> Map<CivilDate, Slot>
    decreases n,
{
    if n == 0 {
        Map::<CivilDate, Slot>::empty()
    } else {
        let m = past_days(history, (n - 1) as nat);
        match dates::full_date(history[n - 1].date@) {
            None => m,
            Some((year, month, day)) => {
                let date = CivilDate { year, month, day };
                let r = past_range(history[n - 1].temperatures, date);
                if r.known() {
                    m.insert(date, Slot { date, max: r.max, min: r.min, forecast: false })
                } else {
                    m
                }
            },
        }
    }
}

/// The days with a forecast range laid over one of them.
pub open spec fn laid_over(
    m: Map<CivilDate, Slot>,
    date: CivilDate,
    r: TemperatureRange,
) -> Map<CivilDate, Slot> {
    if !r.known() {
        m
    } else if m.contains_key(date) {
        let below = TemperatureRange { max: m[date].max, min: m[date].min };
        let f = filled(r, below);
        m.insert(date, Slot { date, max: f.max, min: f.min, forecast: true })
    } else {
        m.insert(date, Slot { date, max: r.max, min: r.min, forecast: true })
    }
}

/// The days with a forecast laid over the day that the text gives, unless that is
/// before the base.
pub open spec fn laid_over_text(
    m: Map<CivilDate, Slot>,
    value: Option<Seq<char>>,
    base: CivilDate,
    r: TemperatureRange,
) -> Map<CivilDate, Slot> {
    match value {
        None => m,
        Some(v) => match dates::relative_date(v, base) {
            None => m,
            Some(date) => if base.rank() <= date.rank() {
                laid_over(m, date, r)
            } else {
                m
            },
        },
    }
}

/// The days with the first `n` forecast days laid over them.
pub open spec fn with_forecast(
    m: Map<CivilDate, Slot>,
    days: Seq<ForecastTemperatures>,
    n: nat,
    base: CivilDate,
) -> Map<CivilDate, Slot>
    decreases n,
{
    if n == 0 {
        m
    } else {
        laid_over_text(
            with_forecast(m, days, (n - 1) as nat, base),
            Some(days[n - 1].date@),
            base,
            TemperatureRange { max: days[n - 1].high, min: days[n - 1].low },
        )
    }
}

/// The days with the first `n` charts laid over them.
pub open spec fn with_charts(
    m: Map<CivilDate, Slot>,
    charts: Seq<ChartedRange>,
    n: nat,
    base: CivilDate,
) -> Map<CivilDate, Slot>
    decreases n,
{
    if n == 0 {
        m
    } else {
        laid_over_text(
            with_charts(m, charts, (n - 1) as nat, base),
            text::opt_text(charts[n - 1].date),
            base,
            TemperatureRange { max: charts[n - 1].max, min: charts[n - 1].min },
        )
    }
}

/// The days of the history: the past ones and, where asked for, those that the last
/// snapshot looks ahead to.
pub open spec fn history_days(
    history: Seq<StoredTemperatures>,
    include_forecast: bool,
) -> Map<CivilDate, Slot> {
    let past = past_days(history, history.len());
    if !include_forecast || history.len() == 0 {
        past
    } else {
        let latest = history.last();
        match dates::full_date(latest.date@) {
            None => past,
            Some((year, month, day)) => {
                let base = CivilDate { year, month, day };
                let t = latest.temperatures;
                let m = match t.forecast {
                    None => past,
                    Some(days) => with_forecast(past, days@, days@.len(), base),
                };
                with_charts(m, t.charts@, t.charts@.len(), base)
            },
        }
    }
}

proof fn lemma_replaced(slots: Seq<Slot>, m: Map<CivilDate, Slot>, p: int, slot: Slot)
    requires
        represents(slots, m),
        0 <= p < slots.len(),
        slots[p].date == slot.date,
        slot.date.valid(),
    ensures
        represents(slots.update(p, slot), m.insert(slot.date, slot)),
{
    let t = slots.update(p, slot);
    let n = m.insert(slot.date, slot);
    assert forall|i: int, j: int| 0 <= i < j < t.len() implies (#[trigger] t[i]).date.rank() < (
    #[trigger] t[j]).date.rank() by {
        assert(slots[i].date.rank() < slots[j].date.rank());
    }
    assert forall|i: int| 0 <= i < t.len() implies {
        &&& (#[trigger] t[i]).date.valid()
        &&& n.contains_key(t[i].date)
        &&& n[t[i].date] == t[i]
    } by {
        if i != p {
            assert(m.contains_key(slots[i].date));
            assert(slots[p].date.valid());
            if i < p {
                assert(slots[i].date.rank() < slots[p].date.rank());
            } else {
                assert(slots[p].date.rank() < slots[i].date.rank());
            }
            assert(t[i].date != slot.date);
        }
    }
    assert forall|d: CivilDate| #[trigger] n.contains_key(d) implies exists|i: int|
        0 <= i < t.len() && (#[trigger] t[i]).date == d by {
        if d == slot.date {
            assert(t[p].date == d);
        } else {
            assert(m.contains_key(d));
            let i = choose|i: int| 0 <= i < slots.len() && (#[trigger] slots[i]).date == d;
            assert(t[i].date == d);
        }
    }
}

proof fn lemma_inserted(slots: Seq<Slot>, m: Map<CivilDate, Slot>, p: int, slot: Slot)
    requires
        represents(slots, m),
        0 <= p <= slots.len(),
        forall|i: int| 0 <= i < p ==> (#[trigger] slots[i]).date.rank() < slot.date.rank(),
        p < slots.len() ==> slot.date.rank() < slots[p].date.rank(),
        slot.date.valid(),
    ensures
        represents(slots.insert(p, slot), m.insert(slot.date, slot)),
        !m.contains_key(slot.date),
{
    let t = slots.insert(p, slot);
    let n = m.insert(slot.date, slot);
    assert forall|i: int| p <= i < slots.len() implies slot.date.rank() < (
    #[trigger] slots[i]).date.rank() by {
        if i > p {
            assert(slots[p].date.rank() < slots[i].date.rank());
        }
    }
    if m.contains_key(slot.date) {
        let i = choose|i: int| 0 <= i < slots.len() && (#[trigger] slots[i]).date == slot.date;
        assert(false);
    }
    assert forall|i: int, j: int| 0 <= i < j < t.len() implies (#[trigger] t[i]).date.rank() < (
    #[trigger] t[j]).date.rank() by {
        let a = if i < p {
            i
        } else {
            i - 1
        };
        let b = if j < p {
            j
        } else {
            j - 1
        };
        if i != p && j != p {
            assert(t[i] == slots[a]);
            assert(t[j] == slots[b]);
        } else if i == p {
            assert(t[j] == slots[j - 1]);
        } else {
            assert(t[i] == slots[i]);
        }
    }
    assert forall|i: int| 0 <= i < t.len() implies {
        &&& (#[trigger] t[i]).date.valid()
        &&& n.contains_key(t[i].date)
        &&& n[t[i].date] == t[i]
    } by {
        if i < p {
            assert(t[i] == slots[i]);
        } else if i > p {
            assert(t[i] == slots[i - 1]);
        }
    }
    assert forall|d: CivilDate| #[trigger] n.contains_key(d) implies exists|i: int|
        0 <= i < t.len() && (#[trigger] t[i]).date == d by {
        if d == slot.date {
            assert(t[p].date == d);
        } else {
            assert(m.contains_key(d));
            let i = choose|i: int| 0 <= i < slots.len() && (#[trigger] slots[i]).date == d;
            if i < p {
                assert(t[i].date == d);
            } else {
                assert(t[i + 1].date == d);
            }
        }
    }
}

/// Where the date is, or would be, among the slots.
fn find_slot(slots: &Vec<Slot>, date: CivilDate) -> (r: (usize, bool))
    requires
        date.valid(),
        forall|i: int, j: int|
            0 <= i < j < slots@.len() ==> (#[trigger] slots@[i]).date.rank() < (
            #[trigger] slots@[j]).date.rank(),
        forall|i: int| 0 <= i < slots@.len() ==> (#[trigger] slots@[i]).date.valid(),
    ensures
        r.0 <= slots@.len(),
        forall|i: int| 0 <= i < r.0 ==> (#[trigger] slots@[i]).date.rank() < date.rank(),
        r.1 ==> r.0 < slots@.len() && slots@[r.0 as int].date == date,
        !r.1 && r.0 < slots@.len() ==> date.rank() < slots@[r.0 as int].date.rank(),
{
    let mut p: usize = 0;
    while p < slots.len()
        invariant
            p <= slots@.len(),
            date.valid(),
            forall|i: int| 0 <= i < slots@.len() ==> (#[trigger] slots@[i]).date.valid(),
            forall|i: int| 0 <= i < p ==> (#[trigger] slots@[i]).date.rank() < date.rank(),
        decreases slots@.len() - p,
    {
        let at = slots[p].date;
        assert(at == slots@[p as int].date);
        assert(at.valid());
        if dates::same_date(at, date) {
            return (p, true);
        }
        if dates::not_after(date, at) {
            proof {
                if date.rank() == at.rank() {
                    dates::rank_is_injective(date, at);
                }
            }
            return (p, false);
        }
        p = p + 1;
    }
    (p, false)
}

fn put_slot(slots: &mut Vec<Slot>, slot: Slot, m: Ghost<Map<CivilDate, Slot>>)
    requires
        represents(old(slots)@, m@),
        slot.date.valid(),
    ensures
        represents(final(slots)@, m@.insert(slot.date, slot)),
{
    let (p, found) = find_slot(slots, slot.date);
    if found {
        proof {
            lemma_replaced(slots@, m@, p as int, slot);
        }
        slots.set(p, slot);
    } else {
        proof {
            lemma_inserted(slots@, m@, p as int, slot);
        }
        slots.insert(p, slot);
    }
}

fn lay_over(slots: &mut Vec<Slot>, date: CivilDate, r: TemperatureRange, m: Ghost<
    Map<CivilDate, Slot>,
>)
    requires
        represents(old(slots)@, m@),
        date.valid(),
    ensures
        represents(final(slots)@, laid_over(m@, date, r)),
{
    if !r.usable() {
        return;
    }
    let (p, found) = find_slot(slots, date);
    if found {
        let below = TemperatureRange { max: slots[p].max, min: slots[p].min };
        let f = r.fill_missing(below);
        let slot = Slot { date, max: f.max, min: f.min, forecast: true };
        proof {
            assert(m@.contains_key(slots@[p as int].date));
            lemma_replaced(slots@, m@, p as int, slot);
        }
        slots.set(p, slot);
    } else {
        let slot = Slot { date, max: r.max, min: r.min, forecast: true };
        proof {
            lemma_inserted(slots@, m@, p as int, slot);
        }
        slots.insert(p, slot);
    }
}

fn lay_over_text(
    slots: &mut Vec<Slot>,
    value: Option<&str>,
    base: CivilDate,
    r: TemperatureRange,
    m: Ghost<Map<CivilDate, Slot>>,
)
    requires
        represents(old(slots)@, m@),
        base.valid(),
    ensures
        represents(final(slots)@, laid_over_text(m@, text::opt_str(value), base, r)),
{
    match value {
        None => {},
        Some(v) => match dates::parse_relative_date(v, base) {
            None => {},
            Some(date) => {
                if dates::not_after(base, date) {
                    lay_over(slots, date, r, m);
                }
            },
        },
    }
}

fn past_slots(history: &Vec<StoredTemperatures>) -> (slots: Vec<Slot>)
    ensures
        represents(slots@, past_days(history@, history@.len())),
{
    let mut slots: Vec<Slot> = Vec::new();
    let mut i: usize = 0;
    while i < history.len()
        invariant
            i <= history@.len(),
            represents(slots@, past_days(history@, i as nat)),
        decreases history@.len() - i,
    {
        let ghost m = past_days(history@, i as nat);
        match dates::parse_full_date(history[i].date.as_str()) {
            None => {},
            Some(date) => {
                let range = historical_range(&history[i].temperatures, date);
                if range.usable() {
                    put_slot(
                        &mut slots,
                        Slot { date, max: range.max, min: range.min, forecast: false },
                        Ghost(m),
                    );
                }
            },
        }
        i = i + 1;
    }
    slots
}

/// The points are those of the slots, in their order.
pub open spec fn points_of(points: Seq<DailyTemperaturePoint>, slots: Seq<Slot>) -> bool {
    &&& points.len() == slots.len()
    &&& forall|i: int|
        0 <= i < points.len() ==> {
            &&& (#[trigger] points[i]).date@ == dates::written(slots[i].date)
            &&& points[i].max_temperature == slots[i].max
            &&& points[i].min_temperature == slots[i].min
            &&& points[i].forecast == slots[i].forecast
        }
}

fn daily_points(slots: &Vec<Slot>) -> (points: Vec<DailyTemperaturePoint>)
    requires
        forall|i: int| 0 <= i < slots@.len() ==> (#[trigger] slots@[i]).date.valid(),
    ensures
        points_of(points@, slots@),
{
    let mut points: Vec<DailyTemperaturePoint> = Vec::new();
    let mut i: usize = 0;
    while i < slots.len()
        invariant
            i <= slots@.len(),
            forall|i: int| 0 <= i < slots@.len() ==> (#[trigger] slots@[i]).date.valid(),
            points_of(points@, slots@.take(i as int)),
        decreases slots@.len() - i,
    {
        let slot = slots[i];
        assert(slots@[i as int].date.valid());
        points.push(
            DailyTemperaturePoint {
                date: dates::write_date(slot.date),
                max_temperature: slot.max,
                min_temperature: slot.min,
                forecast: slot.forecast,
            },
        );
        i = i + 1;
    }
    assert(slots@.take(slots@.len() as int) =~= slots@);
    points
}

/// The history: one point for each day, in the order of the dates.
pub fn build_temperature_history(
    history: &Vec<StoredTemperatures>,
    include_forecast: bool,
) -> (points: Vec<DailyTemperaturePoint>)
    ensures
        exists|slots: Seq<Slot>|
            represents(slots, history_days(history@, include_forecast)) && #[trigger] points_of(
                points@,
                slots,
            ),
{
    let mut slots = past_slots(history);
    let ghost past = past_days(history@, history@.len());
    if include_forecast && history.len() > 0 {
        let latest = &history[history.len() - 1];
        match dates::parse_full_date(latest.date.as_str()) {
            None => {},
            Some(base) => {
                let t = &latest.temperatures;
                let ghost mut m = past;
                match &t.forecast {
                    None => {},
                    Some(days) => {
                        let mut i: usize = 0;
                        while i < days.len()
                            invariant
                                i <= days@.len(),
                                base.valid(),
                                represents(slots@, with_forecast(past, days@, i as nat, base)),
                            decreases days@.len() - i,
                        {
                            lay_over_text(
                                &mut slots,
                                Some(days[i].date.as_str()),
                                base,
                                TemperatureRange { max: days[i].high, min: days[i].low },
                                Ghost(with_forecast(past, days@, i as nat, base)),
                            );
                            i = i + 1;
                        }
                        proof {
                            m = with_forecast(past, days@, days@.len(), base);
                        }
                    },
                }
                let mut j: usize = 0;
                while j < t.charts.len()
                    invariant
                        j <= t.charts@.len(),
                        base.valid(),
                        represents(slots@, with_charts(m, t.charts@, j as nat, base)),
                    decreases t.charts@.len() - j,
                {
                    let chart = &t.charts[j];
                    let value = match &chart.date {
                        Some(v) => Some(v.as_str()),
                        None => None,
                    };
                    assert(text::opt_str(value) == text::opt_text(chart.date));
                    lay_over_text(
                        &mut slots,
                        value,
                        base,
                        TemperatureRange { max: chart.max, min: chart.min },
                        Ghost(with_charts(m, t.charts@, j as nat, base)),
                    );
                    j = j + 1;
                }
            },
        }
    }
    daily_points(&slots)
}

/// A history without a forecast has no point that is one.
pub proof fn past_days_are_no_forecast(history: Seq<StoredTemperatures>, n: nat, date: CivilDate)
    requires
        n <= history.len(),
        past_days(history, n).contains_key(date),
    ensures
        !past_days(history, n)[date].forecast,
    decreases n,
{
    if n > 0 && past_days(history, (n - 1) as nat).contains_key(date) {
        past_days_are_no_forecast(history, (n - 1) as nat, date);
    }
}

/// A request for a page of the history.
#[derive(Debug)]
pub struct HistoryQuery {
    pub unified_uuid: String,
    pub page_size: usize,
    pub before_date: Option<String>,
}

/// The text is a date of ten bytes: year, month and day with hyphens between them.
pub open spec fn page_date(value: Seq<char>) -> bool {
    vstd::utf8::encode_utf8(value).len() == 10 && dates::parsed(value, "%Y-%m-%d"@) is Some
}

/// Why a request for a page of the history is refused, if it is.
pub open spec fn history_fault(uuid: Seq<char>, page_size: u32, before: Option<Seq<char>>) -> Option<
    Seq<char>,
> {
    if text::blank(uuid) {
        Some("unified_uuid must not be empty"@)
    } else if page_size > MAX_HISTORY_PAGE_SIZE {
        Some(
            "page_size "@ + text::numeral(page_size as nat) + " exceeds maximum "@ + text::numeral(
                MAX_HISTORY_PAGE_SIZE as nat,
            ),
        )
    } else if before matches Some(value) && !text::blank(value) && !page_date(value) {
        Some("before_date `"@ + before->0 + "` must use YYYY-MM-DD"@)
    } else {
        None
    }
}

/// `q` is what a request for a page of the history asks for. A page size of zero stands
/// for the usual one, and a blank date is none.
pub open spec fn query_of(
    q: HistoryQuery,
    uuid: Seq<char>,
    page_size: u32,
    before: Option<Seq<char>>,
) -> bool {
    &&& q.unified_uuid@ == text::trimmed(uuid)
    &&& q.page_size == if page_size == 0 {
        DEFAULT_HISTORY_PAGE_SIZE
    } else {
        page_size
    }
    &&& text::opt_text(q.before_date) == match before {
        Some(value) => if text::blank(value) {
            None
        } else {
            Some(value)
        },
        None => None,
    }
}

/// Checks a request for a page of the history and completes it.
pub fn plan_history_request(uuid: &str, page_size: u32, before_date: Option<&str>) -> (r: Result<
    HistoryQuery,
    String,
>)
    ensures
        match r {
            Err(m) => history_fault(uuid@, page_size, text::opt_str(before_date)) == Some(m@),
            Ok(q) => {
                &&& history_fault(uuid@, page_size, text::opt_str(before_date)) is None
                &&& query_of(q, uuid@, page_size, text::opt_str(before_date))
            },
        },
{
    let trimmed = text::trim(uuid);
    if trimmed.is_empty() {
        return Err("unified_uuid must not be empty".to_owned());
    }
    let size: u32 = if page_size == 0 {
        DEFAULT_HISTORY_PAGE_SIZE
    } else {
        page_size
    };
    if size > MAX_HISTORY_PAGE_SIZE {
        let mut m = text::cat("page_size ", text::decimal(size as u64).as_str());
        m.append(" exceeds maximum ");
        m.append(text::decimal(MAX_HISTORY_PAGE_SIZE as u64).as_str());
        return Err(m);
    }
    let before: Option<String> = match before_date {
        None => None,
        Some(value) => if text::is_blank(value) {
            None
        } else {
            if value.as_bytes().len() != 10 || !dates::is_hyphenated_date(value) {
                return Err(text::cat("before_date `", value).concat("` must use YYYY-MM-DD"));
            }
            Some(value.to_owned())
        },
    };
    Ok(HistoryQuery { unified_uuid: trimmed.to_owned(), page_size: size as usize, before_date: before })
}

/// A page of the history.
#[derive(Debug)]
pub struct HistoryPage {
    pub points: Vec<DailyTemperaturePoint>,
    pub next_before_date: Option<String>,
    pub has_more_history: bool,
}

/// `p` is the page that the snapshots give, the oldest first. Only the page of the present
/// looks ahead, and an older page starts before the first date here.
pub open spec fn page_of(
    p: HistoryPage,
    history: Seq<StoredTemperatures>,
    has_more: bool,
    present: bool,
) -> bool {
    &&& exists|slots: Seq<Slot>|
        represents(slots, history_days(history, present)) && #[trigger] points_of(
            p.points@,
            slots,
        )
    &&& p.has_more_history == has_more
    &&& text::opt_text(p.next_before_date) == if has_more && history.len() > 0 {
        Some(history[0].date@)
    } else {
        None
    }
}

/// Answers a request with the snapshots that are kept.
pub fn history_page(
    history: &Vec<StoredTemperatures>,
    has_more: bool,
    query: &HistoryQuery,
) -> (r: HistoryPage)
    ensures
        page_of(r, history@, has_more, query.before_date is None),
{
    let next_before_date = if has_more && history.len() > 0 {
        Some(history[0].date.clone())
    } else {
        None
    };
    let include_forecast: bool = query.before_date.is_none();
    let points = build_temperature_history(history, include_forecast);
    let ghost slots = choose|slots: Seq<Slot>|
        represents(slots, history_days(history@, include_forecast)) && #[trigger] points_of(
            points@,
            slots,
        );
    let page = HistoryPage { points, next_before_date, has_more_history: has_more };
    assert(represents(slots, history_days(history@, query.before_date is None)));
    assert(points_of(page.points@, slots));
    page
}

/// A row counts for a day where it has a temperature and its time, as far as it gives a
/// date, gives that day.
pub proof fn rows_that_count(row: ObservedTemperature, date: CivilDate)
    ensures
        row.temperature is None ==> !counts(row, date),
        row.temperature is Some && row.time is None ==> counts(row, date),
        row.temperature is Some && row.time is Some ==> (counts(row, date) <==> {
            ||| dates::relative_date(row.time.unwrap()@, date) is None
            ||| dates::relative_date(row.time.unwrap()@, date) == Some(date)
        }),
{
}

/// The observed maximum of a day is the temperature of one of the rows that count for it,
/// and no number among the temperatures of those rows is greater.
pub proof fn the_observed_maximum_is_not_exceeded(
    rows: Seq<ObservedTemperature>,
    n: nat,
    date: CivilDate,
)
    requires
        n <= rows.len(),
    ensures
        greatest(rows, n, date) is None <==> forall|i: int|
            0 <= i < n ==> !counts(#[trigger] rows[i], date),
        greatest(rows, n, date) matches Some(m) ==> {
            &&& exists|i: int|
                0 <= i < n && counts(#[trigger] rows[i], date) && rows[i].temperature == Some(m)
            &&& forall|i: int|
                0 <= i < n && counts(#[trigger] rows[i], date) && !rows[i].temperature.unwrap().nan()
                    ==> !m.nan() && rows[i].temperature.unwrap().rank() <= m.rank()
        },
    decreases n,
{
    if n > 0 {
        the_observed_maximum_is_not_exceeded(rows, (n - 1) as nat, date);
        let last = rows[n - 1];
        if counts(last, date) {
            assert(greatest(rows, n, date) is Some);
            if let Some(r) = greatest(rows, (n - 1) as nat, date) {
                reading::the_greater_is_not_exceeded(r, last.temperature.unwrap());
            }
        }
    }
}

/// The observed minimum of a day is the temperature of one of the rows that count for it,
/// and no number among the temperatures of those rows is less.
pub proof fn the_observed_minimum_is_not_undercut(
    rows: Seq<ObservedTemperature>,
    n: nat,
    date: CivilDate,
)
    requires
        n <= rows.len(),
    ensures
        least(rows, n, date) is None <==> forall|i: int|
            0 <= i < n ==> !counts(#[trigger] rows[i], date),
        least(rows, n, date) matches Some(m) ==> {
            &&& exists|i: int|
                0 <= i < n && counts(#[trigger] rows[i], date) && rows[i].temperature == Some(m)
            &&& forall|i: int|
                0 <= i < n && counts(#[trigger] rows[i], date) && !rows[i].temperature.unwrap().nan()
                    ==> !m.nan() && m.rank() <= rows[i].temperature.unwrap().rank()
        },
    decreases n,
{
    if n > 0 {
        the_observed_minimum_is_not_undercut(rows, (n - 1) as nat, date);
        let last = rows[n - 1];
        if counts(last, date) {
            assert(least(rows, n, date) is Some);
            if let Some(r) = least(rows, (n - 1) as nat, date) {
                reading::the_lesser_is_not_undercut(r, last.temperature.unwrap());
            }
        }
    }
}

/// The chart of a day is the first that is dated that day. Where none is, the only chart
/// there is serves if it bears no date.
pub proof fn the_first_dated_chart_serves(charts: Seq<ChartedRange>, date: CivilDate, k: int)
    requires
        0 <= k < charts.len(),
    ensures
        (charts[k].date is Some && dates::relative_date(charts[k].date.unwrap()@, date) == Some(
            date,
        )) ==> (chart_of(charts, date) matches Some(i) && 0 <= i <= k && charts[i].date is Some
            && dates::relative_date(charts[i].date.unwrap()@, date) == Some(date)),
        charts.len() == 1 && (charts[0].date is None || text::blank(charts[0].date.unwrap()@))
            ==> chart_of(charts, date) == Some(0int),
        (charts.len() > 1 || charts[0].date is Some && !text::blank(charts[0].date.unwrap()@))
            && (forall|i: int|
            0 <= i < charts.len() ==> (#[trigger] charts[i]).date is None || dates::relative_date(
                charts[i].date.unwrap()@,
                date,
            ) != Some(date)) ==> chart_of(charts, date) is None,
{
    lemma_dated_chart(charts, 0, date);
    if dated_chart(charts, 0, date) is None {
        assert(!gives(charts[k].date, date));
    }
}

proof fn lemma_dated_chart(charts: Seq<ChartedRange>, i: int, date: CivilDate)
    requires
        0 <= i <= charts.len(),
    ensures
        match dated_chart(charts, i, date) {
            Some(k) => {
                &&& i <= k < charts.len()
                &&& gives(charts[k].date, date)
                &&& forall|j: int| i <= j < k ==> !gives((#[trigger] charts[j]).date, date)
            },
            None => forall|j: int|
                i <= j < charts.len() ==> !gives((#[trigger] charts[j]).date, date),
        },
    decreases charts.len() - i,
{
    if i < charts.len() && !gives(charts[i].date, date) {
        lemma_dated_chart(charts, i + 1, date);
    }
}

/// The forecast of a day is the first that is dated that day.
pub proof fn the_first_dated_forecast_serves(
    forecast: Option<Vec<ForecastTemperatures>>,
    date: CivilDate,
)
    ensures
        forecast is None ==> forecast_of(forecast, date) is None,
        forecast matches Some(days) ==> match forecast_of(forecast, date) {
            Some(k) => {
                &&& 0 <= k < days@.len()
                &&& dates::relative_date(days@[k].date@, date) == Some(date)
                &&& forall|j: int|
                    0 <= j < k ==> dates::relative_date((#[trigger] days@[j]).date@, date) != Some(
                        date,
                    )
            },
            None => forall|j: int|
                0 <= j < days@.len() ==> dates::relative_date((#[trigger] days@[j]).date@, date)
                    != Some(date),
        },
{
    if let Some(days) = forecast {
        lemma_dated_forecast(days@, 0, date);
    }
}

proof fn lemma_dated_forecast(days: Seq<ForecastTemperatures>, i: int, date: CivilDate)
    requires
        0 <= i <= days.len(),
    ensures
        match dated_forecast(days, i, date) {
            Some(k) => {
                &&& i <= k < days.len()
                &&& dates::relative_date(days[k].date@, date) == Some(date)
                &&& forall|j: int|
                    i <= j < k ==> dates::relative_date((#[trigger] days[j]).date@, date) != Some(
                        date,
                    )
            },
            None => forall|j: int|
                i <= j < days.len() ==> dates::relative_date((#[trigger] days[j]).date@, date)
                    != Some(date),
        },
    decreases days.len() - i,
{
    if i < days.len() && dates::relative_date(days[i].date@, date) != Some(date) {
        lemma_dated_forecast(days, i + 1, date);
    }
}

/// Each end of the range of a past day is taken from the chart of the day where that has
/// it, else from what was observed, else from the forecast.
pub proof fn past_ranges_prefer_charts(t: Temperatures, date: CivilDate)
    ensures
        ({
            let r = past_range(t, date);
            let observed_max = greatest(t.passed@, t.passed@.len(), date);
            let observed_min = least(t.passed@, t.passed@.len(), date);
            let chart = chart_of(t.charts@, date);
            let ahead = forecast_of(t.forecast, date);
            &&& chart is Some && t.charts@[chart.unwrap()].max is Some ==> r.max
                == t.charts@[chart.unwrap()].max
            &&& chart is Some && t.charts@[chart.unwrap()].min is Some ==> r.min
                == t.charts@[chart.unwrap()].min
            &&& (chart is None || t.charts@[chart.unwrap()].max is None) && observed_max is Some
                ==> r.max == observed_max
            &&& (chart is None || t.charts@[chart.unwrap()].min is None) && observed_min is Some
                ==> r.min == observed_min
            &&& (chart is None || t.charts@[chart.unwrap()].max is None) && observed_max is None
                ==> r.max == if ahead is Some {
                t.forecast.unwrap()@[ahead.unwrap()].high
            } else {
                None
            }
            &&& (chart is None || t.charts@[chart.unwrap()].min is None) && observed_min is None
                ==> r.min == if ahead is Some {
                t.forecast.unwrap()@[ahead.unwrap()].low
            } else {
                None
            }
        }),
{
}

/// A kept snapshot gives a point of the history: one whose date can be read and whose range
/// is known in part is there with that range, unless a later snapshot of the same day has
/// one too.
pub proof fn kept_days_have_points(
    history: Seq<StoredTemperatures>,
    n: nat,
    k: int,
    date: CivilDate,
)
    requires
        0 <= k < n <= history.len(),
        dates::full_date(history[k].date@) == Some((date.year, date.month, date.day)),
        past_range(history[k].temperatures, date).max is Some || past_range(
            history[k].temperatures,
            date,
        ).min is Some,
        forall|j: int|
            k < j < n ==> dates::full_date((#[trigger] history[j]).date@) != Some(
                (date.year, date.month, date.day),
            ),
    ensures
        past_days(history, n).contains_key(date),
        past_days(history, n)[date].max == past_range(history[k].temperatures, date).max,
        past_days(history, n)[date].min == past_range(history[k].temperatures, date).min,
        past_days(history, n)[date].date == date,
    decreases n,
{
    if k < n - 1 {
        kept_days_have_points(history, (n - 1) as nat, k, date);
        let last = history[n - 1];
        if let Some((year, month, day)) = dates::full_date(last.date@) {
            assert(CivilDate { year, month, day } != date);
        }
    }
}

/// Every point of the past is that of a kept snapshot: its date is read from there, its
/// range is that of the snapshot on that date, and one end of it is known.
pub proof fn points_are_of_kept_days(history: Seq<StoredTemperatures>, n: nat, date: CivilDate)
    requires
        n <= history.len(),
        past_days(history, n).contains_key(date),
    ensures
        exists|k: int|
            {
                &&& 0 <= k < n
                &&& dates::full_date((#[trigger] history[k]).date@) == Some(
                    (date.year, date.month, date.day),
                )
                &&& past_days(history, n)[date].max == past_range(
                    history[k].temperatures,
                    date,
                ).max
                &&& past_days(history, n)[date].min == past_range(
                    history[k].temperatures,
                    date,
                ).min
            },
        past_days(history, n)[date].max is Some || past_days(history, n)[date].min is Some,
    decreases n,
{
    if n > 0 {
        let m = (n - 1) as nat;
        let last = history[n - 1];
        let own = match dates::full_date(last.date@) {
            Some((year, month, day)) => CivilDate { year, month, day } == date && past_range(
                last.temperatures,
                date,
            ).known(),
            None => false,
        };
        if !own {
            assert(past_days(history, m).contains_key(date));
            points_are_of_kept_days(history, m, date);
        } else {
            assert(past_days(history, n)[date].max == past_range(
                history[n - 1].temperatures,
                date,
            ).max);
        }
    }
}

/// A range that looks ahead is laid over a day from the base on: what it knows takes the
/// place of what was there, what it does not know stays, and the day counts as forecast.
/// Every other day stays as it is, and a range that knows nothing changes nothing.
pub proof fn looking_ahead_covers_one_day(
    m: Map<CivilDate, Slot>,
    value: Seq<char>,
    base: CivilDate,
    r: TemperatureRange,
    date: CivilDate,
)
    ensures
        ({
            let after = laid_over_text(m, Some(value), base, r);
            let covered = dates::relative_date(value, base) == Some(date) && base.rank()
                <= date.rank() && (r.max is Some || r.min is Some);
            &&& after.contains_key(date) <==> m.contains_key(date) || covered
            &&& !covered && m.contains_key(date) ==> after[date] == m[date]
            &&& covered ==> after[date].forecast && after[date].date == date
            &&& covered && r.max is Some ==> after[date].max == r.max
            &&& covered && r.min is Some ==> after[date].min == r.min
            &&& covered && r.max is None && m.contains_key(date) ==> after[date].max == m[date].max
            &&& covered && r.min is None && m.contains_key(date) ==> after[date].min == m[date].min
            &&& covered && r.max is None && !m.contains_key(date) ==> after[date].max is None
            &&& covered && r.min is None && !m.contains_key(date) ==> after[date].min is None
        }),
        laid_over_text(m, None, base, r) == m,
{
}

/// A day that no forecast is for, or that is before the base, stays as it is under the
/// forecast.
pub proof fn the_forecast_leaves_other_days(
    m: Map<CivilDate, Slot>,
    days: Seq<ForecastTemperatures>,
    n: nat,
    base: CivilDate,
    date: CivilDate,
)
    requires
        n <= days.len(),
        date.rank() < base.rank() || forall|k: int|
            0 <= k < n ==> dates::relative_date((#[trigger] days[k]).date@, base) != Some(date),
    ensures
        with_forecast(m, days, n, base).contains_key(date) <==> m.contains_key(date),
        m.contains_key(date) ==> with_forecast(m, days, n, base)[date] == m[date],
    decreases n,
{
    if n > 0 {
        let last = days[n - 1];
        the_forecast_leaves_other_days(m, days, (n - 1) as nat, base, date);
        looking_ahead_covers_one_day(
            with_forecast(m, days, (n - 1) as nat, base),
            last.date@,
            base,
            TemperatureRange { max: last.high, min: last.low },
            date,
        );
    }
}

/// A forecast for a day from the base on covers that day, unless a later one does. An end
/// that it does not know is left to what was there.
pub proof fn the_forecast_covers_its_days(
    m: Map<CivilDate, Slot>,
    days: Seq<ForecastTemperatures>,
    n: nat,
    base: CivilDate,
    date: CivilDate,
    k: int,
)
    requires
        0 <= k < n <= days.len(),
        base.rank() <= date.rank(),
        dates::relative_date(days[k].date@, base) == Some(date),
        days[k].high is Some || days[k].low is Some,
        forall|j: int|
            k < j < n ==> dates::relative_date((#[trigger] days[j]).date@, base) != Some(date),
    ensures
        with_forecast(m, days, n, base).contains_key(date),
        with_forecast(m, days, n, base)[date].forecast,
        days[k].high is Some ==> with_forecast(m, days, n, base)[date].max == days[k].high,
        days[k].low is Some ==> with_forecast(m, days, n, base)[date].min == days[k].low,
        m.contains_key(date) && (forall|j: int|
            0 <= j < k ==> dates::relative_date((#[trigger] days[j]).date@, base) != Some(date))
            ==> {
            &&& days[k].high is None ==> with_forecast(m, days, n, base)[date].max == m[date].max
            &&& days[k].low is None ==> with_forecast(m, days, n, base)[date].min == m[date].min
        },
    decreases n,
{
    let last = days[n - 1];
    let before = with_forecast(m, days, (n - 1) as nat, base);
    looking_ahead_covers_one_day(
        before,
        last.date@,
        base,
        TemperatureRange { max: last.high, min: last.low },
        date,
    );
    if k < n - 1 {
        the_forecast_covers_its_days(m, days, (n - 1) as nat, base, date, k);
    } else if forall|j: int|
        0 <= j < k ==> dates::relative_date((#[trigger] days[j]).date@, base) != Some(date) {
        the_forecast_leaves_other_days(m, days, (n - 1) as nat, base, date);
    }
}

/// A day that no chart is for, or that is before the base, stays as it is under the charts.
pub proof fn the_charts_leave_other_days(
    m: Map<CivilDate, Slot>,
    charts: Seq<ChartedRange>,
    n: nat,
    base: CivilDate,
    date: CivilDate,
)
    requires
        n <= charts.len(),
        date.rank() < base.rank() || forall|k: int|
            0 <= k < n ==> (#[trigger] charts[k]).date is None || dates::relative_date(
                charts[k].date.unwrap()@,
                base,
            ) != Some(date),
    ensures
        with_charts(m, charts, n, base).contains_key(date) <==> m.contains_key(date),
        m.contains_key(date) ==> with_charts(m, charts, n, base)[date] == m[date],
    decreases n,
{
    if n > 0 {
        let last = charts[n - 1];
        the_charts_leave_other_days(m, charts, (n - 1) as nat, base, date);
        if let Some(value) = last.date {
            looking_ahead_covers_one_day(
                with_charts(m, charts, (n - 1) as nat, base),
                value@,
                base,
                TemperatureRange { max: last.max, min: last.min },
                date,
            );
        }
    }
}

/// A chart of a day from the base on covers that day, unless a later one does. An end that
/// it does not know is left to what was there.
pub proof fn the_charts_cover_their_days(
    m: Map<CivilDate, Slot>,
    charts: Seq<ChartedRange>,
    n: nat,
    base: CivilDate,
    date: CivilDate,
    k: int,
)
    requires
        0 <= k < n <= charts.len(),
        base.rank() <= date.rank(),
        charts[k].date is Some,
        dates::relative_date(charts[k].date.unwrap()@, base) == Some(date),
        charts[k].max is Some || charts[k].min is Some,
        forall|j: int|
            k < j < n ==> (#[trigger] charts[j]).date is None || dates::relative_date(
                charts[j].date.unwrap()@,
                base,
            ) != Some(date),
    ensures
        with_charts(m, charts, n, base).contains_key(date),
        with_charts(m, charts, n, base)[date].forecast,
        charts[k].max is Some ==> with_charts(m, charts, n, base)[date].max == charts[k].max,
        charts[k].min is Some ==> with_charts(m, charts, n, base)[date].min == charts[k].min,
        m.contains_key(date) && (forall|j: int|
            0 <= j < k ==> (#[trigger] charts[j]).date is None || dates::relative_date(
                charts[j].date.unwrap()@,
                base,
            ) != Some(date)) ==> {
            &&& charts[k].max is None ==> with_charts(m, charts, n, base)[date].max == m[date].max
            &&& charts[k].min is None ==> with_charts(m, charts, n, base)[date].min == m[date].min
        },
    decreases n,
{
    let last = charts[n - 1];
    let before = with_charts(m, charts, (n - 1) as nat, base);
    if let Some(value) = last.date {
        looking_ahead_covers_one_day(
            before,
            value@,
            base,
            TemperatureRange { max: last.max, min: last.min },
            date,
        );
    }
    if k < n - 1 {
        the_charts_cover_their_days(m, charts, (n - 1) as nat, base, date, k);
    } else if forall|j: int|
        0 <= j < k ==> (#[trigger] charts[j]).date is None || dates::relative_date(
            charts[j].date.unwrap()@,
            base,
        ) != Some(date) {
        the_charts_leave_other_days(m, charts, (n - 1) as nat, base, date);
    }
}

/// Without a look ahead, or where the date of the last snapshot cannot be read, the history
/// is that of the kept days.
pub proof fn the_past_stands_alone(history: Seq<StoredTemperatures>)
    ensures
        history_days(history, false) == past_days(history, history.len()),
        history.len() > 0 && dates::full_date(history.last().date@) is None ==> history_days(
            history,
            true,
        ) == past_days(history, history.len()),
{
}

/// With a look ahead, the days before the date of the last snapshot, and those that neither
/// its forecast nor its charts are for, are those of the past.
pub proof fn the_look_ahead_leaves_other_days(
    history: Seq<StoredTemperatures>,
    base: CivilDate,
    date: CivilDate,
)
    requires
        history.len() > 0,
        dates::full_date(history.last().date@) == Some((base.year, base.month, base.day)),
        date.rank() < base.rank() || {
            let t = history.last().temperatures;
            &&& forall|k: int|
                0 <= k < t.charts@.len() ==> (#[trigger] t.charts@[k]).date is None
                    || dates::relative_date(t.charts@[k].date.unwrap()@, base) != Some(date)
            &&& t.forecast matches Some(days) ==> forall|k: int|
                0 <= k < days@.len() ==> dates::relative_date((#[trigger] days@[k]).date@, base)
                    != Some(date)
        },
    ensures
        history_days(history, true).contains_key(date) <==> past_days(
            history,
            history.len(),
        ).contains_key(date),
        past_days(history, history.len()).contains_key(date) ==> history_days(history, true)[date]
            == past_days(history, history.len())[date],
{
    let past = past_days(history, history.len());
    let t = history.last().temperatures;
    let m = match t.forecast {
        None => past,
        Some(days) => with_forecast(past, days@, days@.len(), base),
    };
    if let Some(days) = t.forecast {
        the_forecast_leaves_other_days(past, days@, days@.len(), base, date);
    }
    the_charts_leave_other_days(m, t.charts@, t.charts@.len(), base, date);
}

/// With a look ahead, the last chart that the last snapshot has of a day from its date on
/// tells the range of that day, whatever else is known of it.
pub proof fn charts_tell_the_days_ahead(
    history: Seq<StoredTemperatures>,
    base: CivilDate,
    date: CivilDate,
    k: int,
)
    requires
        history.len() > 0,
        dates::full_date(history.last().date@) == Some((base.year, base.month, base.day)),
        base.rank() <= date.rank(),
        ({
            let charts = history.last().temperatures.charts@;
            &&& 0 <= k < charts.len()
            &&& charts[k].date is Some
            &&& dates::relative_date(charts[k].date.unwrap()@, base) == Some(date)
            &&& charts[k].max is Some || charts[k].min is Some
            &&& forall|j: int|
                k < j < charts.len() ==> (#[trigger] charts[j]).date is None
                    || dates::relative_date(charts[j].date.unwrap()@, base) != Some(date)
        }),
    ensures
        history_days(history, true).contains_key(date),
        history_days(history, true)[date].forecast,
        history.last().temperatures.charts@[k].max is Some ==> history_days(history, true)[date].max
            == history.last().temperatures.charts@[k].max,
        history.last().temperatures.charts@[k].min is Some ==> history_days(history, true)[date].min
            == history.last().temperatures.charts@[k].min,
{
    let past = past_days(history, history.len());
    let t = history.last().temperatures;
    let m = match t.forecast {
        None => past,
        Some(days) => with_forecast(past, days@, days@.len(), base),
    };
    the_charts_cover_their_days(m, t.charts@, t.charts@.len(), base, date, k);
}

/// With a look ahead, the last forecast that the last snapshot has for a day from its date
/// on tells the range of that day, where there is no chart of it.
pub proof fn the_forecast_tells_the_days_ahead(
    history: Seq<StoredTemperatures>,
    days: Seq<ForecastTemperatures>,
    base: CivilDate,
    date: CivilDate,
    k: int,
)
    requires
        history.len() > 0,
        dates::full_date(history.last().date@) == Some((base.year, base.month, base.day)),
        history.last().temperatures.forecast is Some,
        history.last().temperatures.forecast.unwrap()@ == days,
        base.rank() <= date.rank(),
        0 <= k < days.len(),
        dates::relative_date(days[k].date@, base) == Some(date),
        days[k].high is Some || days[k].low is Some,
        forall|j: int|
            k < j < days.len() ==> dates::relative_date((#[trigger] days[j]).date@, base) != Some(
                date,
            ),
        forall|j: int|
            0 <= j < history.last().temperatures.charts@.len() ==> (
            #[trigger] history.last().temperatures.charts@[j]).date is None
                || dates::relative_date(
                history.last().temperatures.charts@[j].date.unwrap()@,
                base,
            ) != Some(date),
    ensures
        history_days(history, true).contains_key(date),
        history_days(history, true)[date].forecast,
        days[k].high is Some ==> history_days(history, true)[date].max == days[k].high,
        days[k].low is Some ==> history_days(history, true)[date].min == days[k].low,
{
    let past = past_days(history, history.len());
    let t = history.last().temperatures;
    let m = with_forecast(past, days, days.len(), base);
    the_forecast_covers_its_days(past, days, days.len(), base, date, k);
    the_charts_leave_other_days(m, t.charts@, t.charts@.len(), base, date);
}

/// The points of a page stand in the order of their dates, each date once, and hold the
/// days of the history: each of these, and nothing else.
pub proof fn pages_list_days_in_order(
    p: HistoryPage,
    history: Seq<StoredTemperatures>,
    has_more: bool,
    present: bool,
)
    requires
        page_of(p, history, has_more, present),
    ensures
        p.has_more_history == has_more,
        p.next_before_date is Some <==> has_more && history.len() > 0,
        p.next_before_date is Some ==> p.next_before_date.unwrap()@ == history[0].date@,
        exists|days: Seq<CivilDate>|
            {
                &&& #[trigger] days.len() == p.points@.len()
                &&& forall|i: int, j: int|
                    0 <= i < j < days.len() ==> (#[trigger] days[i]).rank() < (
                    #[trigger] days[j]).rank()
                &&& forall|i: int|
                    0 <= i < days.len() ==> {
                        &&& history_days(history, present).contains_key(#[trigger] days[i])
                        &&& p.points@[i].date@ == dates::written(days[i])
                        &&& p.points@[i].max_temperature == history_days(
                            history,
                            present,
                        )[days[i]].max
                        &&& p.points@[i].min_temperature == history_days(
                            history,
                            present,
                        )[days[i]].min
                        &&& p.points@[i].forecast == history_days(
                            history,
                            present,
                        )[days[i]].forecast
                    }
                &&& forall|d: CivilDate| #[trigger]
                    history_days(history, present).contains_key(d) ==> days.contains(d)
            },
{
    let slots = choose|slots: Seq<Slot>|
        represents(slots, history_days(history, present)) && #[trigger] points_of(
            p.points@,
            slots,
        );
    let days = Seq::new(slots.len(), |i: int| slots[i].date);
    assert forall|i: int, j: int| 0 <= i < j < days.len() implies (#[trigger] days[i]).rank() < (
    #[trigger] days[j]).rank() by {
        assert(slots[i].date.rank() < slots[j].date.rank());
    }
    assert forall|i: int| 0 <= i < days.len() implies {
        &&& history_days(history, present).contains_key(#[trigger] days[i])
        &&& p.points@[i].date@ == dates::written(days[i])
        &&& p.points@[i].max_temperature == history_days(history, present)[days[i]].max
        &&& p.points@[i].min_temperature == history_days(history, present)[days[i]].min
        &&& p.points@[i].forecast == history_days(history, present)[days[i]].forecast
    } by {
        assert(history_days(history, present)[slots[i].date] == slots[i]);
    }
    assert forall|d: CivilDate| #[trigger]
        history_days(history, present).contains_key(d) implies days.contains(d) by {
        let i = choose|i: int| 0 <= i < slots.len() && (#[trigger] slots[i]).date == d;
        assert(days[i] == d);
    }
    assert(days.len() == p.points@.len());
}

/// Degree signs and white space around a numeral of a temperature do not count.
pub proof fn degrees_do_not_count(n: Seq<char>, signs: Seq<char>)
    requires
        n.len() > 0,
        !text::white(n[0]),
        !text::white(n.last()),
        n.last() != '°' && n.last() != '℃',
        forall|i: int| 0 <= i < signs.len() ==> #[trigger] signs[i] == '°' || signs[i] == '℃',
    ensures
        numeral_of(n + signs) == n,
{
    let s = n + signs;
    assert(s[0] == n[0]);
    if signs.len() > 0 {
        assert(s.last() == signs.last());
        assert(signs[signs.len() - 1] == signs.last());
    } else {
        assert(s =~= n);
    }
    assert(!text::white(s.last()));
    assert(text::trimmed(s) == s);
    assert(s[n.len() - 1] == n.last());
    assert forall|i: int| n.len() <= i < s.len() implies degree_sign(#[trigger] s[i]) by {
        assert(s[i] == signs[i - n.len()]);
    }
    lemma_skip_degrees(s, n.len() as int);
    assert(s.subrange(0, n.len() as int) =~= n);
    assert(text::trimmed(n) == n);
}

/// The temperatures that count of a snapshot are those of its days: the dates of its
/// forecast with their readings, its charts, and what was observed with its time.
pub proof fn temperatures_are_those_of_the_snapshot(
    t: Temperatures,
    s: WeatherSnapshot,
    readings: Seq<(Option<Reading>, Option<Reading>)>,
    i: int,
)
    requires
        temperatures_from(t, s, readings),
        0 <= i,
    ensures
        s.predict is None <==> t.forecast is None,
        s.predict is Some ==> t.forecast.unwrap()@.len() == s.predict.unwrap().days@.len(),
        s.predict is Some && i < s.predict.unwrap().days@.len() ==> {
            let day = t.forecast.unwrap()@[i];
            day.date@ == s.predict.unwrap().days@[i].date@ && day.high == readings[i].0 && day.low
                == readings[i].1
        },
        t.charts@.len() == s.tempchart@.len(),
        i < s.tempchart@.len() ==> t.charts@[i].date == s.tempchart@[i].date && t.charts@[i].max
            == s.tempchart@[i].max_temperature && t.charts@[i].min
            == s.tempchart@[i].min_temperature,
        t.passed@.len() == s.passedchart@.len(),
        i < s.passedchart@.len() ==> t.passed@[i].time == s.passedchart@[i].time
            && t.passed@[i].temperature == s.passedchart@[i].temperature,
{
}

/// A request for a page of the history is refused exactly where it names no station, asks
/// for more than 31 days, or names a date that is not written in ten bytes. One that is not
/// refused asks for seven days where it does not say how many.
pub proof fn history_requests(
    uuid: Seq<char>,
    page_size: u32,
    before: Option<Seq<char>>,
    q: HistoryQuery,
)
    ensures
        text::blank(uuid) ==> history_fault(uuid, page_size, before) is Some,
        page_size > 31 ==> history_fault(uuid, page_size, before) is Some,
        before is Some && !text::blank(before.unwrap()) && (vstd::utf8::encode_utf8(
            before.unwrap(),
        ).len() != 10 || dates::parsed(before.unwrap(), "%Y-%m-%d"@) is None) ==> history_fault(
            uuid,
            page_size,
            before,
        ) is Some,
        !text::blank(uuid) && page_size <= 31 && (before is None || text::blank(before.unwrap()) || (
        vstd::utf8::encode_utf8(before.unwrap()).len() == 10 && dates::parsed(
            before.unwrap(),
            "%Y-%m-%d"@,
        ) is Some)) ==> history_fault(uuid, page_size, before) is None,
        query_of(q, uuid, page_size, before) ==> {
            &&& q.unified_uuid@ == text::trimmed(uuid)
            &&& page_size > 0 ==> q.page_size == page_size
            &&& page_size == 0 ==> q.page_size == 7
            &&& q.before_date is Some <==> before is Some && !text::blank(before.unwrap())
            &&& q.before_date is Some ==> q.before_date.unwrap()@ == before.unwrap()
        },
{
}

/// A refused request for a page of the history is told why: the station first, then the
/// size, then the date.
pub proof fn refused_history_requests_are_told(
    uuid: Seq<char>,
    page_size: u32,
    before: Seq<char>,
)
    ensures
        text::blank(uuid) ==> history_fault(uuid, page_size, Some(before)) == Some(
            "unified_uuid must not be empty"@,
        ),
        !text::blank(uuid) && page_size > 31 ==> history_fault(uuid, page_size, Some(before))
            == Some(
            "page_size "@ + text::numeral(page_size as nat) + " exceeds maximum "@ + text::numeral(
                31,
            ),
        ),
        !text::blank(uuid) && page_size <= 31 ==> (history_fault(uuid, page_size, Some(before))
            is None || history_fault(uuid, page_size, Some(before)) == Some(
            "before_date `"@ + before + "` must use YYYY-MM-DD"@,
        )),
        !text::blank(uuid) && page_size <= 31 ==> history_fault(uuid, page_size, None) is None,
{
}

} // verus!
