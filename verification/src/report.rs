//! Weather reports.

use vstd::prelude::*;
use crate::reading::Reading;

verus! {

/// A station by its place, its canonical name and its identifier.
#[derive(Debug, PartialEq, Eq)]
pub struct StationRef {
    pub province: String,
    pub city: String,
    pub name: String,
    pub unified_uuid: String,
}

/// A weather warning in force.
#[derive(Debug, Clone, PartialEq, Eq)]
pub struct WeatherAlert {
    pub alert: Option<String>,
    pub province: Option<String>,
    pub city: Option<String>,
    pub url: Option<String>,
    pub issue_content: Option<String>,
    pub prevention: Option<String>,
    pub signal_type: Option<String>,
    pub signal_level: Option<String>,
    pub icon_url: Option<String>,
    pub icon_name: Option<String>,
    pub icon_resource_id: Option<String>,
    /// Whether the alert was taken over from the parent station.
    pub inherited: bool,
}

/// The weather observed at a station.
#[derive(Debug, Clone, PartialEq, Eq)]
pub struct ObservedWeather {
    pub publish_time: Option<String>,
    pub info: Option<String>,
    pub temperature: Option<Reading>,
    pub feel_temperature: Option<Reading>,
    pub humidity: Option<Reading>,
    pub rain: Option<Reading>,
    pub wind_direct: Option<String>,
    pub wind_power: Option<String>,
    pub wind_speed: Option<Reading>,
    pub sunrise: Option<String>,
    pub sunset: Option<String>,
    pub alerts: Vec<WeatherAlert>,
    pub temperature_diff: Option<Reading>,
    pub air_pressure: Option<Reading>,
    pub comfort_index: Option<String>,
    pub comfort_label: Option<String>,
    pub weather_icon: Option<String>,
    pub wind_degree: Option<Reading>,
}

/// The forecast of one day.
#[derive(Debug, Clone, PartialEq, Eq)]
pub struct ForecastDay {
    pub date: String,
    pub day_info: Option<String>,
    pub night_info: Option<String>,
    pub day_temperature: Option<String>,
    pub night_temperature: Option<String>,
    pub wind_direct: Option<String>,
    pub wind_power: Option<String>,
    pub precipitation: Option<Reading>,
    pub publish_time: Option<String>,
    pub day_weather_icon: Option<String>,
    pub night_weather_icon: Option<String>,
    pub day_wind_direct: Option<String>,
    pub day_wind_power: Option<String>,
    pub night_wind_direct: Option<String>,
    pub night_wind_power: Option<String>,
}

/// A forecast, day by day.
#[derive(Debug, Clone, PartialEq, Eq)]
pub struct ForecastReport {
    pub publish_time: Option<String>,
    pub days: Vec<ForecastDay>,
}

/// Air quality at a station.
#[derive(Debug, Clone, PartialEq, Eq)]
pub struct AirQuality {
    pub publish_time: Option<String>,
    pub aqi: Option<Reading>,
    pub level: Option<String>,
    pub category: Option<String>,
    pub primary_pollutant: Option<String>,
    pub pm2_5: Option<Reading>,
    pub pm10: Option<Reading>,
    pub no2: Option<Reading>,
    pub so2: Option<Reading>,
    pub co: Option<Reading>,
    pub o3: Option<Reading>,
}

/// The temperature range of one day.
#[derive(Debug, Clone, PartialEq, Eq)]
pub struct TemperatureChart {
    pub date: Option<String>,
    pub max_temperature: Option<Reading>,
    pub min_temperature: Option<Reading>,
    pub day_info: Option<String>,
    pub day_icon: Option<String>,
    pub night_info: Option<String>,
    pub night_icon: Option<String>,
}

/// One row of past observations.
#[derive(Debug, Clone, PartialEq, Eq)]
pub struct PassedWeatherChart {
    pub time: Option<String>,
    pub rain_1h: Option<Reading>,
    pub rain_6h: Option<Reading>,
    pub rain_12h: Option<Reading>,
    pub rain_24h: Option<Reading>,
    pub temperature: Option<Reading>,
    pub temperature_diff: Option<Reading>,
    pub humidity: Option<Reading>,
    pub pressure: Option<Reading>,
    pub wind_direction_degree: Option<Reading>,
    pub wind_speed: Option<Reading>,
}

/// The climate of one month.
#[derive(Debug, Clone, PartialEq, Eq)]
pub struct ClimateMonth {
    pub month: Option<u32>,
    pub average_max_temperature: Option<Reading>,
    pub average_min_temperature: Option<Reading>,
    pub precipitation: Option<Reading>,
}

/// A climate summary, month by month.
#[derive(Debug, Clone, PartialEq, Eq)]
pub struct ClimateSummary {
    pub period: Option<String>,
    pub month: Vec<ClimateMonth>,
}

/// A radar picture.
#[derive(Debug, Clone, PartialEq, Eq)]
pub struct RadarInfo {
    pub title: Option<String>,
    pub image_url: Option<String>,
    pub page_url: Option<String>,
    pub image_resource_id: Option<String>,
}

/// What a provider was asked and what it answered.
#[derive(Debug, Clone, PartialEq, Eq)]
pub struct DebugPayload {
    pub provider: String,
    pub operation: String,
    pub endpoint: String,
    pub raw_json: String,
    pub warnings: Vec<String>,
}

/// All that is known of the weather at a station at one time.
#[derive(Debug, Clone, PartialEq, Eq)]
pub struct WeatherSnapshot {
    pub station: Option<StationRef>,
    pub real: Option<ObservedWeather>,
    pub predict: Option<ForecastReport>,
    pub air: Option<AirQuality>,
    pub tempchart: Vec<TemperatureChart>,
    pub passedchart: Vec<PassedWeatherChart>,
    pub climate: Option<ClimateSummary>,
    pub radar: Option<RadarInfo>,
    pub stale: bool,
    pub debug: Option<DebugPayload>,
}

} // verus!
