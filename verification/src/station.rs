//! Station names and station references.

use vstd::prelude::*;
use crate::provider::{ProviderCity, ProviderProvince};
use crate::report::StationRef;
use crate::text;

verus! {

/// A station as the engine keeps it: the public reference and the provider's keys.
#[derive(Debug, PartialEq, Eq)]
pub struct ProviderStation {
    pub provider_name: String,
    pub display_name: String,
    pub provider_station_id: String,
    pub provider_province_code: String,
    pub province: String,
    pub city: String,
    pub url: String,
    pub name: String,
    pub unified_uuid: String,
}

impl Clone for ProviderStation {
    fn clone(&self) -> (r: Self)
        ensures
            r == *self,
    {
        ProviderStation {
            provider_name: self.provider_name.clone(),
            display_name: self.display_name.clone(),
            provider_station_id: self.provider_station_id.clone(),
            provider_province_code: self.provider_province_code.clone(),
            province: self.province.clone(),
            city: self.city.clone(),
            url: self.url.clone(),
            name: self.name.clone(),
            unified_uuid: self.unified_uuid.clone(),
        }
    }
}

impl Clone for StationRef {
    fn clone(&self) -> (r: Self)
        ensures
            r == *self,
    {
        StationRef {
            province: self.province.clone(),
            city: self.city.clone(),
            name: self.name.clone(),
            unified_uuid: self.unified_uuid.clone(),
        }
    }
}

/// The public reference of a station.
pub open spec fn public(s: ProviderStation) -> StationRef {
    StationRef {
        province: s.province,
        city: s.city,
        name: s.name,
        unified_uuid: s.unified_uuid,
    }
}

impl ProviderStation {
    /// The public reference of the station.
    pub fn public_ref(&self) -> (r: StationRef)
        ensures
            r == public(*self),
    {
        StationRef {
            province: self.province.clone(),
            city: self.city.clone(),
            name: self.name.clone(),
            unified_uuid: self.unified_uuid.clone(),
        }
    }
}

/// `uuid` is an identifier that `uuid_of` gives to `name`.
pub open spec fn identified<F: Fn(&str) -> String>(
    uuid_of: F,
    name: Seq<char>,
    uuid: Seq<char>,
) -> bool {
    exists|s: &str, u: String|
        s@ == name && u@ == uuid && #[trigger] call_ensures(uuid_of, (s,), u)
}

/// `uuid_of` can be asked for the identifier of any name.
pub open spec fn total<F: Fn(&str) -> String>(uuid_of: F) -> bool {
    forall|s: &str| call_requires(uuid_of, (s,))
}

/// The text without the ending, or the text itself.
pub open spec fn without_ending(s: Seq<char>, ending: Seq<char>) -> Seq<char> {
    s.subrange(0, s.len() - ending.len())
}

/// A region's name without the first of the administrative endings that it has.
pub open spec fn short_name(s: Seq<char>) -> Seq<char> {
    if text::ends(s, "市"@) {
        without_ending(s, "市"@)
    } else if text::ends(s, "省"@) {
        without_ending(s, "省"@)
    } else if text::ends(s, "自治区"@) {
        without_ending(s, "自治区"@)
    } else if text::ends(s, "特别行政区"@) {
        without_ending(s, "特别行政区"@)
    } else {
        s
    }
}

/// The canonical name of a station: region, province and city, without the city
/// where it is the province itself.
pub open spec fn canonical_name(province: Seq<char>, city: Seq<char>) -> Seq<char> {
    let region = short_name(province);
    if city == region || city == province {
        region + "-"@ + province
    } else {
        region + "-"@ + province + "-"@ + city
    }
}

/// The region's name without its administrative ending.
pub fn short_region_name(value: &str) -> (r: &str)
    ensures
        r@ == short_name(value@),
{
    match text::strip_suffix(value, "市") {
        Some(r) => r,
        None => match text::strip_suffix(value, "省") {
            Some(r) => r,
            None => match text::strip_suffix(value, "自治区") {
                Some(r) => r,
                None => match text::strip_suffix(value, "特别行政区") {
                    Some(r) => r,
                    None => value,
                },
            },
        },
    }
}

/// The canonical name of a station.
pub fn canonical_station_name(province: &str, city: &str) -> (r: String)
    ensures
        r@ == canonical_name(province@, city@),
{
    let region = short_region_name(province);
    let short = region.to_owned().concat("-").concat(province);
    if text::same(city, region) || text::same(city, province) {
        short
    } else {
        short.concat("-").concat(city)
    }
}

/// The parts that are not blank, trimmed.
pub open spec fn clean(parts: Seq<Seq<char>>) -> Seq<Seq<char>>
    decreases parts.len(),
{
    if parts.len() == 0 {
        Seq::<Seq<char>>::empty()
    } else if text::blank(parts.last()) {
        clean(parts.drop_last())
    } else {
        clean(parts.drop_last()).push(text::trimmed(parts.last()))
    }
}

/// A station name with its parts trimmed and its blank parts dropped.
pub open spec fn normal_name(name: Seq<char>) -> Seq<char> {
    text::joined(clean(text::pieces(name, '-')), "-"@)
}

/// The station name with its parts trimmed and its blank parts dropped.
pub fn normalize_station_name(name: &str) -> (r: String)
    ensures
        r@ == normal_name(name@),
{
    let parts = text::split(name, '-');
    let ghost all = text::texts(parts@);
    let mut kept: Vec<String> = Vec::new();
    let mut i: usize = 0;
    assert(text::texts(kept@) =~= clean(all.take(0)));
    while i < parts.len()
        invariant
            i <= parts@.len(),
            all == text::texts(parts@),
            text::texts(kept@) == clean(all.take(i as int)),
        decreases parts@.len() - i,
    {
        let ghost before = text::texts(kept@);
        assert(all.take(i + 1).drop_last() =~= all.take(i as int));
        assert(all.take(i + 1).last() == parts@[i as int]@);
        let part = text::trim(parts[i].as_str());
        if !part.is_empty() {
            kept.push(part.to_owned());
            assert(text::texts(kept@) =~= before.push(part@));
        }
        i = i + 1;
    }
    assert(all.take(parts@.len() as int) =~= all);
    text::join(&kept, "-")
}

spec fn without(s: Seq<char>, c: char) -> bool {
    forall|i: int| 0 <= i < s.len() ==> s[i] != c
}

proof fn lemma_no_separator(s: Seq<char>, c: char)
    requires
        without(s, c),
    ensures
        text::pieces(s, c) == seq![s],
    decreases s.len(),
{
    if s.len() > 0 {
        let t = s.drop_last();
        assert(without(t, c)) by {
            assert forall|i: int| 0 <= i < t.len() implies t[i] != c by {
                assert(t[i] == s[i]);
            }
        }
        lemma_no_separator(t, c);
        assert(t.push(s.last()) =~= s);
        assert(text::pieces(s, c) =~= seq![s]);
    } else {
        assert(s =~= Seq::<char>::empty());
    }
}

proof fn lemma_separator(a: Seq<char>, c: char, b: Seq<char>)
    requires
        without(b, c),
    ensures
        text::pieces(a.push(c) + b, c) == text::pieces(a, c).push(b),
    decreases b.len(),
{
    let s = a.push(c) + b;
    if b.len() == 0 {
        assert(s =~= a.push(c));
        assert(s.drop_last() =~= a);
        assert(b =~= Seq::<char>::empty());
    } else {
        let t = b.drop_last();
        assert(without(t, c)) by {
            assert forall|i: int| 0 <= i < t.len() implies t[i] != c by {
                assert(t[i] == b[i]);
            }
        }
        lemma_separator(a, c, t);
        assert(s.drop_last() =~= a.push(c) + t);
        assert(s.last() == b.last());
        assert(b.last() != c);
        assert(t.push(b.last()) =~= b);
        assert(text::pieces(a, c).push(t).drop_last() =~= text::pieces(a, c));
        assert(text::pieces(a, c).push(t).last() == t);
    }
}

proof fn lemma_split_joined(parts: Seq<Seq<char>>, c: char, sep: Seq<char>)
    requires
        parts.len() > 0,
        sep == seq![c],
        forall|i: int| 0 <= i < parts.len() ==> without(#[trigger] parts[i], c),
    ensures
        text::pieces(text::joined(parts, sep), c) == parts,
    decreases parts.len(),
{
    if parts.len() == 1 {
        lemma_no_separator(parts[0], c);
        assert(parts =~= seq![parts[0]]);
    } else {
        let t = parts.drop_last();
        assert forall|i: int| 0 <= i < t.len() implies without(#[trigger] t[i], c) by {
            assert(t[i] == parts[i]);
        }
        lemma_split_joined(t, c, sep);
        let a = text::joined(t, sep);
        assert(a + sep + parts.last() =~= a.push(c) + parts.last());
        assert(without(parts[parts.len() - 1], c));
        lemma_separator(a, c, parts.last());
        assert(t.push(parts.last()) =~= parts);
    }
}

proof fn lemma_pieces_without(s: Seq<char>, c: char)
    ensures
        text::pieces(s, c).len() > 0,
        forall|i: int| 0 <= i < text::pieces(s, c).len() ==> without(#[trigger] text::pieces(s, c)[i], c),
    decreases s.len(),
{
    if s.len() > 0 {
        lemma_pieces_without(s.drop_last(), c);
        let rest = text::pieces(s.drop_last(), c);
        if s.last() != c {
            let grown = rest.last().push(s.last());
            assert(without(rest[rest.len() - 1], c));
            assert forall|i: int| 0 <= i < text::pieces(s, c).len() implies without(
                #[trigger] text::pieces(s, c)[i],
                c,
            ) by {
                if i < rest.len() - 1 {
                    assert(without(rest[i], c));
                }
            }
        } else {
            assert forall|i: int| 0 <= i < text::pieces(s, c).len() implies without(
                #[trigger] text::pieces(s, c)[i],
                c,
            ) by {
                if i < rest.len() {
                    assert(without(rest[i], c));
                }
            }
        }
    }
}

proof fn lemma_leading(s: Seq<char>)
    ensures
        text::without_leading(s).len() <= s.len(),
        text::without_leading(s) == s.skip(s.len() - text::without_leading(s).len()),
        text::without_leading(s).len() > 0 ==> !text::white(text::without_leading(s)[0]),
    decreases s.len(),
{
    if s.len() > 0 && text::white(s[0]) {
        lemma_leading(s.drop_first());
        let r = text::without_leading(s.drop_first());
        assert(s.drop_first().skip(s.len() - 1 - r.len()) =~= s.skip(s.len() - r.len()));
    } else {
        assert(s.skip(0) =~= s);
    }
}

proof fn lemma_trailing(s: Seq<char>)
    ensures
        text::without_trailing(s).len() <= s.len(),
        text::without_trailing(s) == s.take(text::without_trailing(s).len() as int),
        text::without_trailing(s).len() > 0 ==> !text::white(text::without_trailing(s).last()),
    decreases s.len(),
{
    if s.len() > 0 && text::white(s.last()) {
        lemma_trailing(s.drop_last());
        let r = text::without_trailing(s.drop_last());
        assert(s.drop_last().take(r.len() as int) =~= s.take(r.len() as int));
    } else {
        assert(s.take(s.len() as int) =~= s);
    }
}

/// Trimming a trimmed text changes nothing.
pub proof fn trimming_is_idempotent(s: Seq<char>)
    ensures
        text::trimmed(text::trimmed(s)) == text::trimmed(s),
{
    lemma_leading(s);
    let t = text::without_leading(s);
    lemma_trailing(t);
    let r = text::without_trailing(t);
    if r.len() > 0 {
        assert(r[0] == t[0]);
    }
    assert(text::without_leading(r) == r);
    assert(text::without_trailing(r) == r);
}

proof fn lemma_trimmed_without(s: Seq<char>, c: char)
    requires
        without(s, c),
    ensures
        without(text::trimmed(s), c),
{
    lemma_leading(s);
    let t = text::without_leading(s);
    lemma_trailing(t);
    let r = text::trimmed(s);
    assert forall|i: int| 0 <= i < r.len() implies r[i] != c by {
        assert(r[i] == t[i]);
        assert(t[i] == s[i + s.len() - t.len()]);
    }
}

spec fn tidy(p: Seq<char>) -> bool {
    p.len() > 0 && text::trimmed(p) == p && without(p, '-')
}

proof fn lemma_clean_is_tidy(parts: Seq<Seq<char>>)
    requires
        forall|i: int| 0 <= i < parts.len() ==> without(#[trigger] parts[i], '-'),
    ensures
        forall|i: int| 0 <= i < clean(parts).len() ==> tidy(#[trigger] clean(parts)[i]),
    decreases parts.len(),
{
    if parts.len() > 0 {
        let t = parts.drop_last();
        assert forall|i: int| 0 <= i < t.len() implies without(#[trigger] t[i], '-') by {
            assert(t[i] == parts[i]);
        }
        lemma_clean_is_tidy(t);
        let last = parts[parts.len() - 1];
        assert(without(last, '-'));
        if !text::blank(last) {
            trimming_is_idempotent(last);
            lemma_trimmed_without(last, '-');
            assert(tidy(text::trimmed(last)));
            assert forall|i: int| 0 <= i < clean(parts).len() implies tidy(
                #[trigger] clean(parts)[i],
            ) by {
                if i < clean(t).len() {
                    assert(tidy(clean(t)[i]));
                }
            }
        }
    }
}

proof fn lemma_tidy_is_clean(parts: Seq<Seq<char>>)
    requires
        forall|i: int| 0 <= i < parts.len() ==> tidy(#[trigger] parts[i]),
    ensures
        clean(parts) == parts,
    decreases parts.len(),
{
    if parts.len() > 0 {
        let t = parts.drop_last();
        assert forall|i: int| 0 <= i < t.len() implies tidy(#[trigger] t[i]) by {
            assert(t[i] == parts[i]);
        }
        lemma_tidy_is_clean(t);
        assert(tidy(parts[parts.len() - 1]));
        assert(t.push(parts.last()) =~= parts);
    }
}

/// A normalized station name is its own normal form: normalizing twice changes
/// nothing more.
pub proof fn normalization_is_idempotent(name: Seq<char>)
    ensures
        normal_name(normal_name(name)) == normal_name(name),
{
    let parts = clean(text::pieces(name, '-'));
    reveal_strlit("-");
    assert("-"@ =~= seq!['-']);
    lemma_pieces_without(name, '-');
    lemma_clean_is_tidy(text::pieces(name, '-'));
    if parts.len() == 0 {
        let e = Seq::<char>::empty();
        assert(normal_name(name) == e);
        let one = text::pieces(e, '-');
        assert(one == seq![e]);
        assert(one.last() == e);
        assert(one.drop_last() =~= Seq::<Seq<char>>::empty());
        assert(text::without_leading(e) == e);
        assert(text::without_trailing(e) == e);
        assert(text::blank(e));
        assert(clean(one) == clean(one.drop_last()));
        assert(clean(one).len() == 0);
    } else {
        assert forall|i: int| 0 <= i < parts.len() implies without(#[trigger] parts[i], '-') by {
            assert(tidy(parts[i]));
        }
        lemma_split_joined(parts, '-', "-"@);
        lemma_tidy_is_clean(parts);
    }
}

/// Each text of `upstream` where it is not empty, else that of the station asked for.
pub open spec fn merged(upstream: Option<StationRef>, requested: ProviderStation) -> StationRef {
    match upstream {
        None => public(requested),
        Some(s) => StationRef {
            province: if s.province@.len() == 0 {
                requested.province
            } else {
                s.province
            },
            city: if s.city@.len() == 0 {
                requested.city
            } else {
                s.city
            },
            name: if s.name@.len() == 0 {
                requested.name
            } else {
                s.name
            },
            unified_uuid: if s.unified_uuid@.len() == 0 {
                requested.unified_uuid
            } else {
                s.unified_uuid
            },
        },
    }
}

/// Completes the station that the provider reports from the one that was asked for.
pub fn merge_station(upstream: Option<StationRef>, requested: &ProviderStation) -> (r: StationRef)
    ensures
        r == merged(upstream, *requested),
{
    let mut station = match upstream {
        Some(s) => s,
        None => requested.public_ref(),
    };
    if station.province.as_str().is_empty() {
        station.province = requested.province.clone();
    }
    if station.city.as_str().is_empty() {
        station.city = requested.city.clone();
    }
    if station.name.as_str().is_empty() {
        station.name = requested.name.clone();
    }
    if station.unified_uuid.as_str().is_empty() {
        station.unified_uuid = requested.unified_uuid.clone();
    }
    station
}

/// The station of a catalog city, apart from its identifier.
pub open spec fn station_of_city(
    s: ProviderStation,
    provider_name: Seq<char>,
    provider_province_code: Seq<char>,
    city: ProviderCity,
) -> bool {
    &&& s.provider_name@ == provider_name
    &&& s.provider_province_code@ == provider_province_code
    &&& s.provider_station_id == city.provider_code
    &&& s.province == city.province
    &&& s.city == city.city
    &&& s.url == city.url
    &&& s.name@ == canonical_name(city.province@, city.city@)
    &&& s.display_name == s.name
}

/// The station of a catalog city.
pub fn city_to_provider_station<F: Fn(&str) -> String>(
    provider_name: &str,
    provider_province_code: &str,
    city: &ProviderCity,
    uuid_of: &F,
) -> (r: ProviderStation)
    requires
        total(*uuid_of),
    ensures
        station_of_city(r, provider_name@, provider_province_code@, *city),
        identified(*uuid_of, r.name@, r.unified_uuid@),
{
    let name = canonical_station_name(city.province.as_str(), city.city.as_str());
    let unified_uuid = uuid_of(name.as_str());
    ProviderStation {
        provider_name: provider_name.to_owned(),
        display_name: name.clone(),
        provider_station_id: city.provider_code.clone(),
        provider_province_code: provider_province_code.to_owned(),
        province: city.province.clone(),
        city: city.city.clone(),
        url: city.url.clone(),
        unified_uuid,
        name,
    }
}

/// The names under which a station is known.
pub fn station_names(station: &ProviderStation) -> (r: Vec<String>)
    ensures
        text::texts(r@) == seq![canonical_name(station.province@, station.city@)],
{
    let mut r: Vec<String> = Vec::new();
    r.push(canonical_station_name(station.province.as_str(), station.city.as_str()));
    assert(text::texts(r@) =~= seq![canonical_name(station.province@, station.city@)]);
    r
}

/// The province is one that the hint speaks of.
pub open spec fn hinted(province: ProviderProvince, hint: Seq<char>) -> bool {
    ||| province.name@ == hint
    ||| short_name(province.name@) == hint
    ||| text::occurs(province.name@, hint)
    ||| text::occurs(hint, short_name(province.name@))
}

/// Some province of the list has the given code.
pub open spec fn has_code(list: Seq<ProviderProvince>, code: Seq<char>) -> bool {
    exists|i: int| 0 <= i < list.len() && (#[trigger] list[i]).provider_code@ == code
}

/// The target with the hinted provinces of the source appended, each code once.
pub open spec fn with_hinted(
    target: Seq<ProviderProvince>,
    source: Seq<ProviderProvince>,
    hint: Seq<char>,
) -> Seq<ProviderProvince>
    decreases source.len(),
{
    if source.len() == 0 {
        target
    } else {
        let so_far = with_hinted(target, source.drop_last(), hint);
        let next = source.last();
        if hinted(next, hint) && !has_code(so_far, next.provider_code@) {
            so_far.push(next)
        } else {
            so_far
        }
    }
}

fn contains_code(list: &Vec<ProviderProvince>, code: &str) -> (r: bool)
    ensures
        r == has_code(list@, code@),
{
    let mut i: usize = 0;
    while i < list.len()
        invariant
            i <= list@.len(),
            forall|k: int| 0 <= k < i ==> (#[trigger] list@[k]).provider_code@ != code@,
        decreases list@.len() - i,
    {
        if text::same(list[i].provider_code.as_str(), code) {
            return true;
        }
        i = i + 1;
    }
    false
}

/// Appends the hinted provinces of the source whose codes the target lacks.
pub fn push_matching_provinces(
    target: &mut Vec<ProviderProvince>,
    source: &Vec<ProviderProvince>,
    hint: &str,
)
    ensures
        final(target)@ == with_hinted(old(target)@, source@, hint@),
{
    let mut i: usize = 0;
    while i < source.len()
        invariant
            i <= source@.len(),
            target@ == with_hinted(old(target)@, source@.take(i as int), hint@),
        decreases source@.len() - i,
    {
        assert(source@.take(i + 1).drop_last() =~= source@.take(i as int));
        let province = &source[i];
        let name = province.name.as_str();
        let short = short_region_name(name);
        let matching = text::same(name, hint) || text::same(short, hint) || text::contains(
            name,
            hint,
        ) || text::contains(hint, short);
        if matching && !contains_code(target, province.provider_code.as_str()) {
            target.push(province.clone());
        }
        i = i + 1;
    }
    assert(source@.take(source@.len() as int) =~= source@);
}

/// A region's name loses the ending that tells a city, a province, an autonomous region or
/// a special administrative region, and nothing else.
pub proof fn administrative_endings_go(base: Seq<char>)
    ensures
        short_name(base + "市"@) == base,
        short_name(base + "省"@) == base,
        short_name(base + "自治区"@) == base,
        short_name(base + "特别行政区"@) == base,
        base.len() == 0 || (base.last() != '市' && base.last() != '省' && base.last() != '区')
            ==> short_name(base) == base,
{
    reveal_strlit("市");
    reveal_strlit("省");
    reveal_strlit("自治区");
    reveal_strlit("特别行政区");
    let city = base + "市"@;
    let province = base + "省"@;
    let region = base + "自治区"@;
    let special = base + "特别行政区"@;
    lemma_ending(base, "市"@);
    lemma_ending(base, "省"@);
    lemma_ending(base, "自治区"@);
    lemma_ending(base, "特别行政区"@);
    assert(city.last() == '市');
    assert(province.last() == '省');
    assert(region.last() == '区');
    assert(special.last() == '区');
    lemma_last_of_ending(province, "市"@);
    lemma_last_of_ending(region, "市"@);
    lemma_last_of_ending(region, "省"@);
    lemma_last_of_ending(special, "市"@);
    lemma_last_of_ending(special, "省"@);
    if text::ends(special, "自治区"@) {
        let tail = special.subrange(special.len() - 3, special.len() as int);
        assert(tail[1] == special[special.len() - 2]);
        assert(special[special.len() - 2] == '政');
        assert("自治区"@[1] == '治');
    }
    lemma_last_of_ending(base, "市"@);
    lemma_last_of_ending(base, "省"@);
    lemma_last_of_ending(base, "自治区"@);
    lemma_last_of_ending(base, "特别行政区"@);
}

proof fn lemma_ending(base: Seq<char>, ending: Seq<char>)
    ensures
        text::ends(base + ending, ending),
        without_ending(base + ending, ending) == base,
{
    text::occurrences_are_parts(base, ending, base, base);
    assert((base + ending).subrange(0, base.len() as int) =~= base);
}

proof fn lemma_last_of_ending(s: Seq<char>, ending: Seq<char>)
    requires
        ending.len() > 0,
    ensures
        text::ends(s, ending) ==> s.len() > 0 && s.last() == ending.last(),
{
    if text::ends(s, ending) {
        let tail = s.subrange(s.len() - ending.len(), s.len() as int);
        assert(tail[ending.len() - 1] == s[s.len() - 1]);
    }
}

/// The canonical name of a station joins the short name of its province, the province and
/// the city with dashes. A city that is the province itself is left out.
pub proof fn canonical_names_are_joined(province: Seq<char>, city: Seq<char>)
    ensures
        city != province && city != short_name(province) ==> canonical_name(province, city)
            == text::joined(seq![short_name(province), province, city], "-"@),
        city == province || city == short_name(province) ==> canonical_name(province, city)
            == text::joined(seq![short_name(province), province], "-"@),
{
    let two = seq![short_name(province), province];
    let three = seq![short_name(province), province, city];
    assert(three =~= two.push(city));
    assert(two =~= seq![short_name(province)].push(province));
    text::joining_separates(two, "-"@, city);
    text::joining_separates(seq![short_name(province)], "-"@, province);
    text::joining_separates(seq![short_name(province)], "-"@, short_name(province));
}

/// Of the parts of a name the blank ones go and the others are trimmed, in their order: each
/// stands behind as many as stand before it.
pub proof fn blank_parts_go(parts: Seq<Seq<char>>, k: int)
    requires
        0 <= k < parts.len(),
    ensures
        text::blank(parts[k]) ==> clean(parts.take(k + 1)) == clean(parts.take(k)),
        !text::blank(parts[k]) ==> clean(parts.take(k)).len() < clean(parts).len() && clean(
            parts,
        )[clean(parts.take(k)).len() as int] == text::trimmed(parts[k]),
        clean(parts.take(0)).len() == 0,
        clean(parts).len() <= parts.len(),
    decreases parts.len(),
{
    assert(parts.take(k + 1).drop_last() =~= parts.take(k));
    let t = parts.drop_last();
    if k < t.len() {
        assert(t.take(k) =~= parts.take(k));
        blank_parts_go(t, k);
    } else {
        assert(parts.take(k) =~= t);
        if t.len() > 0 {
            blank_parts_go(t, 0);
        }
    }
}

/// A name is normalized part by part: joined again are the parts that are left.
pub proof fn names_are_normalized_by_parts(parts: Seq<Seq<char>>)
    requires
        parts.len() > 0,
        forall|i: int| 0 <= i < parts.len() ==> !(#[trigger] parts[i]).contains('-'),
    ensures
        normal_name(text::joined(parts, "-"@)) == text::joined(clean(parts), "-"@),
{
    reveal_strlit("-");
    assert("-"@ =~= seq!['-']);
    assert forall|i: int| 0 <= i < parts.len() implies without(#[trigger] parts[i], '-') by {
        let p = parts[i];
        assert(!p.contains('-'));
        assert forall|j: int| 0 <= j < p.len() implies p[j] != '-' by {
            assert(p.contains(p[j]));
        }
    }
    lemma_split_joined(parts, '-', "-"@);
}

/// The station of a report is the one that the provider names, as far as it does: each text
/// that is empty there is the one of the station asked for.
pub proof fn reported_stations_are_completed(
    upstream: Option<StationRef>,
    requested: ProviderStation,
)
    ensures
        ({
            let r = merged(upstream, requested);
            match upstream {
                None => {
                    &&& r.province@ == requested.province@
                    &&& r.city@ == requested.city@
                    &&& r.name@ == requested.name@
                    &&& r.unified_uuid@ == requested.unified_uuid@
                },
                Some(s) => {
                    &&& s.province@ != ""@ ==> r.province@ == s.province@
                    &&& s.province@ == ""@ ==> r.province@ == requested.province@
                    &&& s.city@ != ""@ ==> r.city@ == s.city@
                    &&& s.city@ == ""@ ==> r.city@ == requested.city@
                    &&& s.name@ != ""@ ==> r.name@ == s.name@
                    &&& s.name@ == ""@ ==> r.name@ == requested.name@
                    &&& s.unified_uuid@ != ""@ ==> r.unified_uuid@ == s.unified_uuid@
                    &&& s.unified_uuid@ == ""@ ==> r.unified_uuid@ == requested.unified_uuid@
                },
            }
        }),
{
    reveal_strlit("");
    if let Some(s) = upstream {
        if s.province@.len() == 0 {
            assert(s.province@ =~= ""@);
        }
        if s.city@.len() == 0 {
            assert(s.city@ =~= ""@);
        }
        if s.name@.len() == 0 {
            assert(s.name@ =~= ""@);
        }
        if s.unified_uuid@.len() == 0 {
            assert(s.unified_uuid@ =~= ""@);
        }
    }
}

/// The public reference of a station keeps its names and its identifier.
pub proof fn references_keep_names(s: ProviderStation)
    ensures
        public(s).province == s.province,
        public(s).city == s.city,
        public(s).name == s.name,
        public(s).unified_uuid == s.unified_uuid,
{
}

/// The station of a city of the catalog is asked for by the code of the city, lies where the
/// city lies, and has the canonical name.
pub proof fn stations_are_those_of_their_cities(
    s: ProviderStation,
    provider_name: Seq<char>,
    province_code: Seq<char>,
    city: ProviderCity,
)
    requires
        station_of_city(s, provider_name, province_code, city),
    ensures
        s.provider_name@ == provider_name,
        s.provider_province_code@ == province_code,
        s.provider_station_id@ == city.provider_code@,
        s.province@ == city.province@,
        s.city@ == city.city@,
        s.url@ == city.url@,
        s.name@ == canonical_name(city.province@, city.city@),
        s.display_name@ == canonical_name(city.province@, city.city@),
{
}

/// The hinted provinces are appended, each code once: what was there stays first, what is
/// appended is hinted and of the source, and no hinted province's code is missing.
pub proof fn hinted_provinces_are_appended(
    target: Seq<ProviderProvince>,
    source: Seq<ProviderProvince>,
    hint: Seq<char>,
)
    ensures
        target.is_prefix_of(with_hinted(target, source, hint)),
        forall|k: int|
            target.len() <= k < with_hinted(target, source, hint).len() ==> {
                let p = #[trigger] with_hinted(target, source, hint)[k];
                &&& source.contains(p)
                &&& p.name@ == hint || short_name(p.name@) == hint || text::occurs(p.name@, hint)
                    || text::occurs(hint, short_name(p.name@))
            },
        forall|j: int, k: int|
            0 <= j < k < with_hinted(target, source, hint).len() && target.len() <= k ==> (
            #[trigger] with_hinted(target, source, hint)[j]).provider_code@ != (
            #[trigger] with_hinted(target, source, hint)[k]).provider_code@,
        forall|i: int|
            0 <= i < source.len() && ((#[trigger] source[i]).name@ == hint || short_name(
                source[i].name@,
            ) == hint || text::occurs(source[i].name@, hint) || text::occurs(
                hint,
                short_name(source[i].name@),
            )) ==> exists|k: int|
                0 <= k < with_hinted(target, source, hint).len() && (#[trigger] with_hinted(
                    target,
                    source,
                    hint,
                )[k]).provider_code@ == source[i].provider_code@,
    decreases source.len(),
{
    let after = with_hinted(target, source, hint);
    if source.len() == 0 {
        assert(target.take(target.len() as int) =~= target);
    } else {
        let t = source.drop_last();
        let before = with_hinted(target, t, hint);
        hinted_provinces_are_appended(target, t, hint);
        assert(before.is_prefix_of(after)) by {
            assert(after.take(before.len() as int) =~= before);
        }
        assert(after.take(target.len() as int) =~= target) by {
            assert(before.take(target.len() as int) =~= target);
            assert forall|m: int| 0 <= m < target.len() implies after[m] == target[m] by {
                assert(before.take(target.len() as int)[m] == before[m]);
            }
        }
        assert forall|k: int| target.len() <= k < after.len() implies {
            let p = #[trigger] after[k];
            &&& source.contains(p)
            &&& p.name@ == hint || short_name(p.name@) == hint || text::occurs(p.name@, hint)
                || text::occurs(hint, short_name(p.name@))
        } by {
            if k < before.len() {
                assert(after[k] == before[k]);
                let m = choose|m: int| 0 <= m < t.len() && t[m] == before[k];
                assert(source[m] == before[k]);
            } else {
                assert(source[source.len() - 1] == source.last());
            }
        }
        assert forall|j: int, k: int|
            0 <= j < k < after.len() && target.len() <= k implies (
            #[trigger] after[j]).provider_code@ != (#[trigger] after[k]).provider_code@ by {
            if k < before.len() {
                assert(after[j] == before[j] && after[k] == before[k]);
            } else {
                assert(after[j] == before[j]);
            }
        }
        assert forall|i: int|
            0 <= i < source.len() && ((#[trigger] source[i]).name@ == hint || short_name(
                source[i].name@,
            ) == hint || text::occurs(source[i].name@, hint) || text::occurs(
                hint,
                short_name(source[i].name@),
            )) implies exists|k: int|
            0 <= k < after.len() && (#[trigger] after[k]).provider_code@
                == source[i].provider_code@ by {
            if i < t.len() {
                assert(t[i] == source[i]);
                let k = choose|k: int|
                    0 <= k < before.len() && (#[trigger] before[k]).provider_code@
                        == t[i].provider_code@;
                assert(after[k] == before[k]);
            } else if has_code(before, source.last().provider_code@) {
                let k = choose|k: int|
                    0 <= k < before.len() && (#[trigger] before[k]).provider_code@
                        == source.last().provider_code@;
                assert(after[k] == before[k]);
            } else {
                assert(after[before.len() as int] == source.last());
            }
        }
    }
}

/// An identifier of a name is one that comes back when the name is asked for; any name can
/// be asked for.
pub proof fn identifiers_come_back_for_names<F: Fn(&str) -> String>(
    uuid_of: F,
    name: Seq<char>,
    uuid: Seq<char>,
    s: &str,
    u: String,
)
    ensures
        call_ensures(uuid_of, (s,), u) ==> identified(uuid_of, s@, u@),
        identified(uuid_of, name, uuid) ==> exists|asked: &str, told: String|
            #[trigger] call_ensures(uuid_of, (asked,), told) && asked@ == name && told@ == uuid,
        total(uuid_of) ==> call_requires(uuid_of, (s,)),
{
}

/// Ways of asking that give a name one identifier and no other identify it so.
pub proof fn sure_identifiers_are_told_apart<F: Fn(&str) -> String>(
    uuid_of: F,
    name: Seq<char>,
    a: Seq<char>,
    b: Seq<char>,
)
    requires
        forall|s: &str, t: &str, u: String, v: String|
            s@ == t@ && #[trigger] call_ensures(uuid_of, (s,), u) && #[trigger] call_ensures(
                uuid_of,
                (t,),
                v,
            ) ==> u@ == v@,
        identified(uuid_of, name, a),
        identified(uuid_of, name, b),
    ensures
        a == b,
{
}

} // verus!
