//! What is requested of the provider, and which resources are accepted from it.

use vstd::prelude::*;
use crate::text;
use crate::url::{self, Origin};

verus! {

/// Largest accepted resource, in bytes.
pub const MAX_RESOURCE_BYTES: usize = 8 * 1024 * 1024;

/// The path of the list of provinces.
pub fn provinces_path() -> (r: String)
    ensures
        r@ == "rest/province/all"@,
{
    "rest/province/all".to_owned()
}

/// The path of the list of cities of a province.
pub fn cities_path(provider_province_code: &str) -> (r: String)
    ensures
        r@ == "rest/province/"@ + provider_province_code@,
{
    text::cat("rest/province/", provider_province_code)
}

/// The path of a weather response.
pub fn weather_path() -> (r: String)
    ensures
        r@ == "rest/weather"@,
{
    "rest/weather".to_owned()
}

/// The query of a weather response: the station.
pub fn weather_query(provider_station_id: &str) -> (r: Vec<(String, String)>)
    ensures
        url::pairs(r@) == seq![("stationid"@, provider_station_id@)],
{
    let mut r: Vec<(String, String)> = Vec::new();
    r.push(("stationid".to_owned(), provider_station_id.to_owned()));
    assert(url::pairs(r@) =~= seq![("stationid"@, provider_station_id@)]);
    r
}

fn same_port(a: Option<u16>, b: Option<u16>) -> (r: bool)
    ensures
        r == (a == b),
{
    match (a, b) {
        (Some(a), Some(b)) => a == b,
        (None, None) => true,
        _ => false,
    }
}

/// Why a resource address is refused, if it is: it is none, or it is not of the
/// provider's origin.
pub open spec fn source_fault(base: Seq<char>, source: Seq<char>) -> Option<Seq<char>> {
    match url::origin(source) {
        Err(error) => Some(text::in_context("invalid NMC resource URL"@, error)),
        Ok(_) => if url::origin(source) != url::origin(base) {
            Some("NMC resource URL is outside the configured provider origin"@)
        } else {
            None
        },
    }
}

/// Checks that a resource is fetched from the provider's own origin.
pub fn check_resource_url(base_url: &str, source_url: &str) -> (r: Result<(), String>)
    ensures
        match r {
            Ok(_) => source_fault(base_url@, source_url@) is None,
            Err(m) => source_fault(base_url@, source_url@) == Some(m@),
        },
{
    let source: Origin = match url::origin_of(source_url) {
        Ok(source) => source,
        Err(error) => {
            return Err(text::with_context("invalid NMC resource URL", error.as_str()));
        },
    };
    let inside = match url::origin_of(base_url) {
        Ok(base) => text::same(source.scheme.as_str(), base.scheme.as_str()) && text::same_optional(
            &source.host,
            &base.host,
        ) && same_port(source.port, base.port),
        Err(_) => false,
    };
    if inside {
        Ok(())
    } else {
        Err("NMC resource URL is outside the configured provider origin".to_owned())
    }
}

/// The media types that are accepted as resources.
pub open spec fn image_type(t: Seq<char>) -> bool {
    ||| t == "image/png"@
    ||| t == "image/jpeg"@
    ||| t == "image/jpg"@
    ||| t == "image/webp"@
    ||| t == "image/gif"@
}

/// Checks that a resource is an image.
pub fn check_resource_type(content_type: &str) -> (r: Result<(), String>)
    ensures
        match r {
            Ok(_) => image_type(content_type@),
            Err(m) => !image_type(content_type@) && m@ == "unsupported NMC resource content type `"@
                + content_type@ + "`"@,
        },
{
    if text::same(content_type, "image/png") || text::same(content_type, "image/jpeg")
        || text::same(content_type, "image/jpg") || text::same(content_type, "image/webp")
        || text::same(content_type, "image/gif") {
        Ok(())
    } else {
        Err(text::cat("unsupported NMC resource content type `", content_type).concat("`"))
    }
}

/// A resource is fetched only from an address that can be read and has the scheme, the host
/// and the port of the provider.
pub proof fn resources_come_from_the_provider(base: Seq<char>, source: Seq<char>)
    ensures
        source_fault(base, source) is None <==> url::origin(source) is Ok && url::origin(base) is Ok
            && url::origin(source) == url::origin(base),
{
}

/// A resource is an image of one of five media types.
pub proof fn resources_are_images(t: Seq<char>)
    ensures
        image_type(t) <==> seq![
            "image/png"@,
            "image/jpeg"@,
            "image/jpg"@,
            "image/webp"@,
            "image/gif"@,
        ].contains(t),
        MAX_RESOURCE_BYTES == 8_388_608,
{
    let all = seq![
        "image/png"@,
        "image/jpeg"@,
        "image/jpg"@,
        "image/webp"@,
        "image/gif"@,
    ];
    assert(all[0] == "image/png"@ && all[1] == "image/jpeg"@ && all[2] == "image/jpg"@ && all[3]
        == "image/webp"@ && all[4] == "image/gif"@);
    if all.contains(t) {
        let k = choose|k: int| 0 <= k < all.len() && all[k] == t;
    }
}

/// A resource that is not fetched is told why.
pub proof fn refused_resources_are_told(base: Seq<char>, source: Seq<char>)
    ensures
        url::origin(source) matches Err(error) ==> source_fault(base, source) == Some(
            "invalid NMC resource URL"@ + ": "@ + error,
        ),
        url::origin(source) is Ok && url::origin(source) != url::origin(base) ==> source_fault(
            base,
            source,
        ) == Some("NMC resource URL is outside the configured provider origin"@),
{
}

} // verus!
