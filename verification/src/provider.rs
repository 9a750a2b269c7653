//! Provider catalog rows, and which provider is used.

use vstd::prelude::*;
use crate::config::{ProviderConfig, UpdaterConfig};
use crate::text;

verus! {

/// A province as the provider lists it.
#[derive(Debug, PartialEq, Eq)]
pub struct ProviderProvince {
    pub provider_code: String,
    pub name: String,
    pub url: String,
}

/// A city as the provider lists it.
#[derive(Debug, PartialEq, Eq)]
pub struct ProviderCity {
    pub provider_code: String,
    pub provider_province_code: String,
    pub province: String,
    pub city: String,
    pub url: String,
}

impl Clone for ProviderProvince {
    fn clone(&self) -> (r: Self)
        ensures
            r == *self,
    {
        ProviderProvince {
            provider_code: self.provider_code.clone(),
            name: self.name.clone(),
            url: self.url.clone(),
        }
    }
}

impl Clone for ProviderCity {
    fn clone(&self) -> (r: Self)
        ensures
            r == *self,
    {
        ProviderCity {
            provider_code: self.provider_code.clone(),
            provider_province_code: self.provider_province_code.clone(),
            province: self.province.clone(),
            city: self.city.clone(),
            url: self.url.clone(),
        }
    }
}

/// The index of the first of the first `n` providers that has a name.
pub open spec fn provider_at(providers: Seq<ProviderConfig>, n: nat, name: Seq<char>) -> Option<int>
    decreases n,
{
    if n == 0 {
        None
    } else {
        match provider_at(providers, (n - 1) as nat, name) {
            Some(i) => Some(i),
            None => if providers[n - 1].name@ == name {
                Some(n - 1)
            } else {
                None
            },
        }
    }
}

/// Why there is no provider, if there is none.
pub open spec fn provider_fault(config: UpdaterConfig) -> Option<Seq<char>> {
    let name = config.default_provider@;
    if provider_at(config.provider@, config.provider@.len(), name) is None {
        Some("updater.default_provider `"@ + name + "` is not configured"@)
    } else if name != "nmc"@ {
        Some("unsupported updater provider `"@ + name + "`"@)
    } else {
        None
    }
}

/// The configuration of the provider to build: the one named as the default, of a kind
/// that can be built.
pub fn create_weather_provider(config: &UpdaterConfig) -> (r: Result<ProviderConfig, String>)
    ensures
        match provider_fault(*config) {
            Some(m) => r matches Err(e) && e@ == m,
            None => r == Ok::<_, String>(
                config.provider@[provider_at(
                    config.provider@,
                    config.provider@.len(),
                    config.default_provider@,
                )->0],
            ),
        },
{
    let name = config.default_provider.as_str();
    let mut found: Option<usize> = None;
    let mut i: usize = 0;
    while i < config.provider.len()
        invariant
            i <= config.provider@.len(),
            name@ == config.default_provider@,
            match found {
                Some(k) => k < i && provider_at(config.provider@, i as nat, name@) == Some(
                    k as int,
                ),
                None => provider_at(config.provider@, i as nat, name@) is None,
            },
        decreases config.provider@.len() - i,
    {
        if found.is_none() && text::same(config.provider[i].name.as_str(), name) {
            found = Some(i);
        }
        i = i + 1;
    }
    match found {
        None => Err(
            text::cat("updater.default_provider `", name).concat("` is not configured"),
        ),
        Some(k) => {
            if text::same(name, "nmc") {
                Ok(config.provider[k].clone())
            } else {
                Err(text::cat("unsupported updater provider `", name).concat("`"))
            }
        },
    }
}

/// Checks that a provider from elsewhere is the one that is configured.
pub fn validate_injected_provider(config: &UpdaterConfig, provider_name: &str) -> (r: Result<
    (),
    String,
>)
    ensures
        if text::blank(provider_name@) {
            r matches Err(m) && m@ == "injected weather provider name must not be empty"@
        } else if provider_name@ != config.default_provider@ {
            r matches Err(m) && m@ == "injected weather provider `"@ + provider_name@
                + "` does not match updater.default_provider `"@ + config.default_provider@ + "`"@
        } else {
            r is Ok
        },
{
    if text::is_blank(provider_name) {
        return Err("injected weather provider name must not be empty".to_owned());
    }
    if !text::same(provider_name, config.default_provider.as_str()) {
        let mut m = text::cat("injected weather provider `", provider_name);
        m.append("` does not match updater.default_provider `");
        m.append(config.default_provider.as_str());
        m.append("`");
        return Err(m);
    }
    Ok(())
}

/// The provider is the first that is configured under the name of the default, which has to
/// be one that can be built: any other name is refused, configured or not.
pub proof fn the_default_provider_is_built(config: UpdaterConfig, k: int)
    ensures
        config.default_provider@ != "nmc"@ ==> provider_fault(config) is Some,
        (forall|i: int|
            0 <= i < config.provider@.len() ==> (#[trigger] config.provider@[i]).name@ != "nmc"@)
            ==> provider_fault(config) is Some,
        config.default_provider@ == "nmc"@ && 0 <= k < config.provider@.len()
            && config.provider@[k].name@ == "nmc"@ && (forall|i: int|
            0 <= i < k ==> (#[trigger] config.provider@[i]).name@ != "nmc"@) ==> provider_fault(
            config,
        ) is None && provider_at(
            config.provider@,
            config.provider@.len(),
            config.default_provider@,
        ) == Some(k),
{
    lemma_provider_at(config.provider@, config.provider@.len(), config.default_provider@);
}

proof fn lemma_provider_at(providers: Seq<ProviderConfig>, n: nat, name: Seq<char>)
    requires
        n <= providers.len(),
    ensures
        provider_at(providers, n, name) matches Some(i) ==> 0 <= i < n && providers[i].name@
            == name && forall|k: int| 0 <= k < i ==> (#[trigger] providers[k]).name@ != name,
        provider_at(providers, n, name) is None ==> forall|k: int|
            0 <= k < n ==> (#[trigger] providers[k]).name@ != name,
    decreases n,
{
    if n > 0 {
        lemma_provider_at(providers, (n - 1) as nat, name);
    }
}

/// A default provider that is not configured, or that cannot be built, is told by its name.
pub proof fn missing_providers_are_told(config: UpdaterConfig)
    ensures
        (forall|i: int|
            0 <= i < config.provider@.len() ==> (#[trigger] config.provider@[i]).name@
                != config.default_provider@) ==> provider_fault(config) == Some(
            "updater.default_provider `"@ + config.default_provider@ + "` is not configured"@,
        ),
        (exists|i: int|
            0 <= i < config.provider@.len() && (#[trigger] config.provider@[i]).name@
                == config.default_provider@) && config.default_provider@ != "nmc"@
            ==> provider_fault(config) == Some(
            "unsupported updater provider `"@ + config.default_provider@ + "`"@,
        ),
{
    lemma_provider_at(config.provider@, config.provider@.len(), config.default_provider@);
}

} // verus!
