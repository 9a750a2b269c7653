//! Network settings: proxies and certificate checks.

use vstd::prelude::*;
use crate::text;

verus! {

/// The proxies that requests go through, and whether certificates may be invalid.
#[derive(Debug, PartialEq, Eq)]
pub struct HttpNetworkConfig {
    pub http_proxy: Option<String>,
    pub https_proxy: Option<String>,
    pub no_proxy: Option<String>,
    pub all_proxy: Option<String>,
    pub allow_insecure: bool,
}

/// An environment variable under its two spellings.
#[derive(Debug)]
pub struct ProxyVariable {
    pub uppercase: Option<String>,
    pub lowercase: Option<String>,
}

/// The environment variables that name proxies.
#[derive(Debug)]
pub struct ProxyEnvironment {
    pub http_proxy: ProxyVariable,
    pub https_proxy: ProxyVariable,
    pub no_proxy: ProxyVariable,
    pub all_proxy: ProxyVariable,
}

/// The network settings for all providers.
#[derive(Debug)]
pub struct NetworkConfig {
    pub http_proxy: Option<String>,
    pub https_proxy: Option<String>,
    pub no_proxy: Option<String>,
    pub all_proxy: Option<String>,
    pub allow_insecure: bool,
}

/// The network settings of one provider.
#[derive(Debug)]
pub struct ProviderNetworkConfig {
    pub http_proxy: Option<String>,
    pub https_proxy: Option<String>,
    pub no_proxy: Option<String>,
    pub all_proxy: Option<String>,
    pub allow_insecure: Option<bool>,
}

/// A setting without the white space around it; a blank one is none.
pub open spec fn normalized(value: Seq<char>) -> Option<Seq<char>> {
    if text::blank(value) {
        None
    } else {
        Some(text::trimmed(value))
    }
}

/// The setting without the white space around it, unless it is blank.
pub fn normalized_network_value(value: &str) -> (r: Option<String>)
    ensures
        text::opt_text(r) == normalized(value@),
{
    let value = text::trim(value);
    if value.is_empty() {
        None
    } else {
        Some(value.to_owned())
    }
}

/// What an environment variable sets: the upper-case spelling counts where it is
/// there, blank or not.
pub open spec fn variable_value(v: ProxyVariable) -> Option<Seq<char>> {
    match v.uppercase {
        Some(s) => normalized(s@),
        None => match v.lowercase {
            Some(s) => normalized(s@),
            None => None,
        },
    }
}

fn proxy_environment_value(v: &ProxyVariable) -> (r: Option<String>)
    ensures
        text::opt_text(r) == variable_value(*v),
{
    match &v.uppercase {
        Some(s) => normalized_network_value(s.as_str()),
        None => match &v.lowercase {
            Some(s) => normalized_network_value(s.as_str()),
            None => None,
        },
    }
}

impl HttpNetworkConfig {
    /// The settings that the environment makes; certificates are always checked.
    pub fn from_environment(environment: &ProxyEnvironment) -> (r: HttpNetworkConfig)
        ensures
            text::opt_text(r.http_proxy) == variable_value(environment.http_proxy),
            text::opt_text(r.https_proxy) == variable_value(environment.https_proxy),
            text::opt_text(r.no_proxy) == variable_value(environment.no_proxy),
            text::opt_text(r.all_proxy) == variable_value(environment.all_proxy),
            !r.allow_insecure,
    {
        HttpNetworkConfig {
            http_proxy: proxy_environment_value(&environment.http_proxy),
            https_proxy: proxy_environment_value(&environment.https_proxy),
            no_proxy: proxy_environment_value(&environment.no_proxy),
            all_proxy: proxy_environment_value(&environment.all_proxy),
            allow_insecure: false,
        }
    }
}

/// A setting over the one below it: where it is there it counts, and a blank one
/// clears the one below.
pub open spec fn over(below: Option<Seq<char>>, setting: Option<Seq<char>>) -> Option<Seq<char>> {
    match setting {
        Some(s) => normalized(s),
        None => below,
    }
}

fn overlay_value(target: Option<String>, setting: &Option<String>) -> (r: Option<String>)
    ensures
        text::opt_text(r) == over(text::opt_text(target), text::opt_text(*setting)),
{
    match setting {
        Some(s) => normalized_network_value(s.as_str()),
        None => target,
    }
}

/// The settings in force: the provider's over the global ones over the environment's,
/// each field for itself.
pub fn resolve_network(
    environment: HttpNetworkConfig,
    global: &NetworkConfig,
    provider: &ProviderNetworkConfig,
) -> (r: HttpNetworkConfig)
    ensures
        text::opt_text(r.http_proxy) == over(
            over(text::opt_text(environment.http_proxy), text::opt_text(global.http_proxy)),
            text::opt_text(provider.http_proxy),
        ),
        text::opt_text(r.https_proxy) == over(
            over(text::opt_text(environment.https_proxy), text::opt_text(global.https_proxy)),
            text::opt_text(provider.https_proxy),
        ),
        text::opt_text(r.no_proxy) == over(
            over(text::opt_text(environment.no_proxy), text::opt_text(global.no_proxy)),
            text::opt_text(provider.no_proxy),
        ),
        text::opt_text(r.all_proxy) == over(
            over(text::opt_text(environment.all_proxy), text::opt_text(global.all_proxy)),
            text::opt_text(provider.all_proxy),
        ),
        r.allow_insecure == match provider.allow_insecure {
            Some(allow) => allow,
            None => global.allow_insecure,
        },
{
    HttpNetworkConfig {
        http_proxy: overlay_value(
            overlay_value(environment.http_proxy, &global.http_proxy),
            &provider.http_proxy,
        ),
        https_proxy: overlay_value(
            overlay_value(environment.https_proxy, &global.https_proxy),
            &provider.https_proxy,
        ),
        no_proxy: overlay_value(
            overlay_value(environment.no_proxy, &global.no_proxy),
            &provider.no_proxy,
        ),
        all_proxy: overlay_value(
            overlay_value(environment.all_proxy, &global.all_proxy),
            &provider.all_proxy,
        ),
        allow_insecure: match provider.allow_insecure {
            Some(allow) => allow,
            None => global.allow_insecure,
        },
    }
}

/// A setting that holds more than white space counts without the white space around it; any
/// other is none.
pub proof fn blank_settings_are_none(value: Seq<char>)
    ensures
        text::blank(value) ==> normalized(value) is None,
        !text::blank(value) ==> normalized(value) == Some(text::trimmed(value)),
{
}

/// A setting that is there takes the place of the one below it, and clears it where it is
/// blank; one that is not there leaves it.
pub proof fn settings_take_the_place_of_those_below(
    below: Option<Seq<char>>,
    setting: Seq<char>,
)
    ensures
        over(below, None) == below,
        !text::blank(setting) ==> over(below, Some(setting)) == Some(text::trimmed(setting)),
        text::blank(setting) ==> over(below, Some(setting)) is None,
{
}

/// Of the two spellings of a variable the upper-case one counts where it is there, also
/// where it is blank.
pub proof fn upper_case_variables_count_first(v: ProxyVariable)
    ensures
        v.uppercase is Some ==> variable_value(v) == (if text::blank(v.uppercase.unwrap()@) {
            None
        } else {
            Some(text::trimmed(v.uppercase.unwrap()@))
        }),
        v.uppercase is None && v.lowercase is Some ==> variable_value(v) == (if text::blank(
            v.lowercase.unwrap()@,
        ) {
            None
        } else {
            Some(text::trimmed(v.lowercase.unwrap()@))
        }),
        v.uppercase is None && v.lowercase is None ==> variable_value(v) is None,
{
}

} // verus!
