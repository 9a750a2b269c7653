//! Verified core of a weather service.

pub mod catalog;
pub mod catalog_requests;
pub mod clock;
pub mod config;
pub mod dates;
pub mod events;
pub mod flights;
pub mod history;
pub mod history_requests;
pub mod http;
pub mod json;
pub mod limits;
pub mod lock;
pub mod manifest;
pub mod network;
pub mod nmc;
pub mod page;
pub mod paths;
pub mod population;
pub mod provider;
pub mod reading;
pub mod refresh;
pub mod report;
pub mod resource_requests;
pub mod resources;
pub mod rpc;
pub mod search;
pub mod server;
pub mod sorting;
pub mod startup;
pub mod station;
pub mod text;
pub mod textmap;
pub mod url;
pub mod weather;
pub mod weather_requests;
