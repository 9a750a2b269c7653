//! Reading of single values and of lists, with a warning for each that is unusable.

use vstd::prelude::*;
use crate::json::{self, Json, Member};
use crate::reading::Reading;
use crate::text;
use crate::url;

verus! {

/// Where a mapping stands: the base of relative addresses and the warnings so far.
pub struct MappingContext {
    pub base_url: String,
    pub warnings: Vec<String>,
}

impl MappingContext {
    /// The warnings so far.
    pub open spec fn warned(self) -> Seq<Seq<char>> {
        text::texts(self.warnings@)
    }

    /// A context without warnings.
    pub fn new(base_url: &str) -> (c: MappingContext)
        ensures
            c.base_url@ == base_url@,
            c.warned() == Seq::<Seq<char>>::empty(),
    {
        let c = MappingContext { base_url: base_url.to_owned(), warnings: Vec::new() };
        assert(c.warned() =~= Seq::<Seq<char>>::empty());
        c
    }

    /// Adds a warning: the path of the value, then what is wrong with it.
    pub fn warn(&mut self, path: &str, complaint: &str)
        ensures
            final(self).warned() == old(self).warned().push(path@ + complaint@),
            final(self).base_url == old(self).base_url,
    {
        let message = path.to_owned().concat(complaint);
        self.warnings.push(message);
        assert(self.warned() =~= old(self).warned().push(path@ + complaint@));
    }

    /// How many warnings there are.
    pub fn warning_count(&self) -> (n: usize)
        ensures
            n == self.warned().len(),
    {
        self.warnings.len()
    }
}

/// What became of a value: it stands for nothing, it is of the wrong kind, or it
/// is usable.
pub enum Candidate<T> {
    Missing,
    Invalid,
    Value(T),
}

/// The candidate with the view of its value.
pub open spec fn seen<T: View>(c: Candidate<T>) -> Candidate<T::V> {
    match c {
        Candidate::Missing => Candidate::Missing,
        Candidate::Invalid => Candidate::Invalid,
        Candidate::Value(v) => Candidate::Value(v@),
    }
}

/// An optional value by its view.
pub open spec fn seen_opt<T: View>(o: Option<T>) -> Option<T::V> {
    match o {
        Some(v) => Some(v@),
        None => None,
    }
}

/// Scalars that a JSON value can be read as.
pub trait Scalar: View + Sized {
    /// What a warning calls the expected kind of value.
    spec fn kind() -> Seq<char>;

    /// What the value is when read as this kind of scalar.
    spec fn read(v: Json) -> Candidate<Self::V>;

    /// What a warning calls the expected kind of value.
    fn kind_text() -> (r: &'static str)
        ensures
            r@ == Self::kind(),
    ;

    /// Reads the value as this kind of scalar.
    fn convert(v: &Json) -> (r: Candidate<Self>)
        ensures
            seen(r) == Self::read(*v),
    ;
}

impl Scalar for String {
    open spec fn kind() -> Seq<char> {
        "string"@
    }

    open spec fn read(v: Json) -> Candidate<Seq<char>> {
        if json::missing(v) {
            Candidate::Missing
        } else {
            match v {
                Json::Text(t) => Candidate::Value(text::trimmed(t.text@)),
                Json::Number(n) => Candidate::Value(n.text@),
                _ => Candidate::Invalid,
            }
        }
    }

    fn kind_text() -> (r: &'static str) {
        "string"
    }

    fn convert(v: &Json) -> (r: Candidate<Self>) {
        if json::is_missing(v) {
            return Candidate::Missing;
        }
        match v {
            Json::Text(t) => Candidate::Value(text::trim(t.text.as_str()).to_owned()),
            Json::Number(n) => Candidate::Value(n.text.clone()),
            _ => Candidate::Invalid,
        }
    }
}

impl Scalar for Reading {
    open spec fn kind() -> Seq<char> {
        "number"@
    }

    open spec fn read(v: Json) -> Candidate<Reading> {
        if json::missing(v) {
            Candidate::Missing
        } else {
            match v {
                Json::Number(n) => if n.reading.finite() {
                    Candidate::Value(n.reading)
                } else {
                    Candidate::Invalid
                },
                Json::Text(t) => match t.reading {
                    Some(r) => if r.finite() {
                        Candidate::Value(r)
                    } else {
                        Candidate::Invalid
                    },
                    None => Candidate::Invalid,
                },
                _ => Candidate::Invalid,
            }
        }
    }

    fn kind_text() -> (r: &'static str) {
        "number"
    }

    fn convert(v: &Json) -> (r: Candidate<Self>) {
        if json::is_missing(v) {
            return Candidate::Missing;
        }
        let parsed: Option<Reading> = match v {
            Json::Number(n) => Some(n.reading),
            Json::Text(t) => t.reading,
            _ => None,
        };
        match parsed {
            Some(r) => if r.is_finite() {
                Candidate::Value(r)
            } else {
                Candidate::Invalid
            },
            None => Candidate::Invalid,
        }
    }
}

impl Scalar for u32 {
    open spec fn kind() -> Seq<char> {
        "non-negative integer"@
    }

    open spec fn read(v: Json) -> Candidate<u32> {
        if json::missing(v) {
            Candidate::Missing
        } else {
            match v {
                Json::Number(n) => match n.whole {
                    Some(w) => if w <= u32::MAX {
                        Candidate::Value(w as u32)
                    } else {
                        Candidate::Invalid
                    },
                    None => Candidate::Invalid,
                },
                Json::Text(t) => match text::count_of(text::trimmed(t.text@)) {
                    Some(n) => Candidate::Value(n as u32),
                    None => Candidate::Invalid,
                },
                _ => Candidate::Invalid,
            }
        }
    }

    fn kind_text() -> (r: &'static str) {
        "non-negative integer"
    }

    fn convert(v: &Json) -> (r: Candidate<Self>) {
        if json::is_missing(v) {
            return Candidate::Missing;
        }
        match v {
            Json::Number(n) => match n.whole {
                Some(w) => if w <= 0xFFFF_FFFF {
                    Candidate::Value(w as u32)
                } else {
                    Candidate::Invalid
                },
                None => Candidate::Invalid,
            },
            Json::Text(t) => match text::parse_count(text::trim(t.text.as_str())) {
                Some(n) => Candidate::Value(n),
                None => Candidate::Invalid,
            },
            _ => Candidate::Invalid,
        }
    }
}

/// What a value is when read as a resource address.
pub open spec fn reference_of(v: Json) -> Candidate<Seq<char>> {
    if json::missing(v) {
        Candidate::Missing
    } else {
        match v {
            Json::Text(t) => Candidate::Value(text::trimmed(t.text@)),
            _ => Candidate::Invalid,
        }
    }
}

/// Reads the value as a resource address.
pub fn resource_reference_candidate(v: &Json) -> (r: Candidate<String>)
    ensures
        seen(r) == reference_of(*v),
{
    if json::is_missing(v) {
        return Candidate::Missing;
    }
    match v {
        Json::Text(t) => Candidate::Value(text::trim(t.text.as_str()).to_owned()),
        _ => Candidate::Invalid,
    }
}

/// The members of a section that is present and an object.
pub open spec fn section(v: Option<&Json>) -> Option<Seq<Member>> {
    match v {
        Some(j) => if json::missing(*j) {
            None
        } else {
            match *j {
                Json::Object(ms) => Some(ms@),
                _ => None,
            }
        },
        None => None,
    }
}

/// The warnings after a section was opened: one more where it is present and no object.
pub open spec fn section_warned(
    v: Option<&Json>,
    path: Seq<char>,
    complaint: Seq<char>,
    w: Seq<Seq<char>>,
) -> Seq<Seq<char>> {
    match v {
        Some(j) => if json::missing(*j) || *j is Object {
            w
        } else {
            w.push(path + complaint)
        },
        None => w,
    }
}

fn object_section<'a>(
    v: Option<&'a Json>,
    path: &str,
    complaint: &str,
    context: &mut MappingContext,
) -> (r: Option<&'a Vec<Member>>)
    ensures
        match r {
            Some(ms) => section(v) == Some(ms@),
            None => section(v) is None,
        },
        final(context).warned() == section_warned(v, path@, complaint@, old(context).warned()),
        final(context).base_url == old(context).base_url,
{
    match v {
        Some(j) => {
            if json::is_missing(j) {
                return None;
            }
            match j {
                Json::Object(ms) => Some(ms),
                _ => {
                    context.warn(path, complaint);
                    None
                },
            }
        },
        None => None,
    }
}

/// Opens a section whose fields are read by their own names.
pub fn decode_section<'a>(
    v: Option<&'a Json>,
    path: &str,
    context: &mut MappingContext,
) -> (r: Option<&'a Vec<Member>>)
    ensures
        match r {
            Some(ms) => section(v) == Some(ms@),
            None => section(v) is None,
        },
        final(context).warned() == section_warned(
            v,
            path@,
            ": malformed object; ignored"@,
            old(context).warned(),
        ),
        final(context).base_url == old(context).base_url,
{
    object_section(v, path, ": malformed object; ignored", context)
}

/// Opens a section whose fields are read by alias.
pub fn section_object<'a>(
    v: Option<&'a Json>,
    path: &str,
    context: &mut MappingContext,
) -> (r: Option<&'a Vec<Member>>)
    ensures
        match r {
            Some(ms) => section(v) == Some(ms@),
            None => section(v) is None,
        },
        final(context).warned() == section_warned(
            v,
            path@,
            ": expected object; ignored"@,
            old(context).warned(),
        ),
        final(context).base_url == old(context).base_url,
{
    object_section(v, path, ": expected object; ignored", context)
}

/// The member of a section that may be absent.
pub open spec fn part<'a>(s: Option<Seq<Member>>, name: Seq<char>) -> Option<&'a Json> {
    match s {
        Some(ms) => json::lookup(ms, name),
        None => None,
    }
}

/// The contents of a section that may be absent.
pub open spec fn members(s: Option<&Vec<Member>>) -> Option<Seq<Member>> {
    match s {
        Some(ms) => Some(ms@),
        None => None,
    }
}

/// The member of a section that may be absent.
pub fn get_part<'a>(s: Option<&'a Vec<Member>>, name: &str) -> (r: Option<&'a Json>)
    ensures
        r == part(members(s), name@),
{
    match s {
        Some(ms) => json::get(ms, name),
        None => None,
    }
}

/// The usable value of a field with one name.
pub open spec fn fixed_value<T: Scalar>(v: Option<&Json>) -> Option<T::V> {
    match v {
        Some(j) => match T::read(*j) {
            Candidate::Value(x) => Some(x),
            _ => None,
        },
        None => None,
    }
}

/// The warnings after a field with one name was read.
pub open spec fn fixed_warned<T: Scalar>(
    v: Option<&Json>,
    path: Seq<char>,
    w: Seq<Seq<char>>,
) -> Seq<Seq<char>> {
    if v matches Some(j) && T::read(*j) is Invalid {
        w.push(path + (": expected "@ + T::kind() + "; field ignored"@))
    } else {
        w
    }
}

/// Reads a field with one name.
pub fn fixed<T: Scalar>(v: Option<&Json>, path: &str, context: &mut MappingContext) -> (r: Option<
    T,
>)
    ensures
        seen_opt(r) == fixed_value::<T>(v),
        final(context).warned() == fixed_warned::<T>(v, path@, old(context).warned()),
        final(context).base_url == old(context).base_url,
{
    match v {
        None => None,
        Some(j) => match T::convert(j) {
            Candidate::Missing => None,
            Candidate::Value(x) => Some(x),
            Candidate::Invalid => {
                let complaint = ": expected ".to_owned().concat(T::kind_text()).concat(
                    "; field ignored",
                );
                context.warn(path, complaint.as_str());
                None
            },
        },
    }
}

/// The first usable value among the members with the given names.
pub open spec fn alias_value<T: Scalar>(ms: Seq<Member>, names: Seq<Seq<char>>) -> Option<T::V>
    decreases names.len(),
{
    if names.len() == 0 {
        None
    } else {
        match fixed_value::<T>(json::lookup(ms, names[0])) {
            Some(x) => Some(x),
            None => alias_value::<T>(ms, names.drop_first()),
        }
    }
}

/// Some member with one of the given names is of the wrong kind.
pub open spec fn alias_invalid<T: Scalar>(ms: Seq<Member>, names: Seq<Seq<char>>) -> bool {
    exists|i: int|
        0 <= i < names.len() && (json::lookup(ms, #[trigger] names[i]) matches Some(j) && T::read(
            *j,
        ) is Invalid)
}

/// The names in a list of names separated by bars.
pub open spec fn names(list: Seq<char>) -> Seq<Seq<char>> {
    text::pieces(list, '|')
}

/// The warnings after a field was read by alias.
pub open spec fn alias_warned<T: Scalar>(
    ms: Seq<Member>,
    list: Seq<char>,
    path: Seq<char>,
    w: Seq<Seq<char>>,
) -> Seq<Seq<char>> {
    if alias_value::<T>(ms, names(list)) is None && alias_invalid::<T>(ms, names(list)) {
        w.push(path + (": no alias contained a usable "@ + T::kind() + "; field ignored"@))
    } else {
        w
    }
}

/// Reads a field by alias: the first usable value counts, and there is a warning
/// only where none is usable and one is of the wrong kind. The aliases are
/// separated by bars.
pub fn alias<T: Scalar>(
    ms: &Vec<Member>,
    list: &str,
    path: &str,
    context: &mut MappingContext,
) -> (r: Option<T>)
    ensures
        seen_opt(r) == alias_value::<T>(ms@, names(list@)),
        final(context).warned() == alias_warned::<T>(ms@, list@, path@, old(context).warned()),
        final(context).base_url == old(context).base_url,
{
    let aliases = text::split(list, '|');
    let ghost all = names(list@);
    let mut saw_invalid: bool = false;
    let mut i: usize = 0;
    assert(all.skip(0) =~= all);
    while i < aliases.len()
        invariant
            i <= aliases@.len(),
            text::texts(aliases@) == all,
            all == names(list@),
            *context == *old(context),
            alias_value::<T>(ms@, all) == alias_value::<T>(ms@, all.skip(i as int)),
            saw_invalid <==> exists|k: int|
                0 <= k < i && (json::lookup(ms@, #[trigger] all[k]) matches Some(j) && T::read(
                    *j,
                ) is Invalid),
        decreases aliases@.len() - i,
    {
        assert(all[i as int] == aliases@[i as int]@);
        assert(all.skip(i as int)[0] == all[i as int]);
        assert(all.skip(i as int).drop_first() =~= all.skip(i + 1));
        match json::get(ms, aliases[i].as_str()) {
            None => {},
            Some(j) => match T::convert(j) {
                Candidate::Missing => {},
                Candidate::Invalid => {
                    saw_invalid = true;
                },
                Candidate::Value(x) => {
                    return Some(x);
                },
            },
        }
        i = i + 1;
    }
    if saw_invalid {
        let complaint = ": no alias contained a usable ".to_owned().concat(T::kind_text()).concat(
            "; field ignored",
        );
        context.warn(path, complaint.as_str());
    }
    None
}

/// The address that a field with one name leads to.
pub open spec fn resource_value(v: Option<&Json>, base: Seq<char>) -> Option<Seq<char>> {
    match v {
        Some(j) => match reference_of(*j) {
            Candidate::Value(x) => url::address(base, x),
            _ => None,
        },
        None => None,
    }
}

/// The warnings after a resource address with one name was read.
pub open spec fn resource_warned(
    v: Option<&Json>,
    base: Seq<char>,
    path: Seq<char>,
    w: Seq<Seq<char>>,
) -> Seq<Seq<char>> {
    match v {
        Some(j) => match reference_of(*j) {
            Candidate::Missing => w,
            Candidate::Invalid => w.push(path + ": expected resource URL string; field ignored"@),
            Candidate::Value(x) => if url::address(base, x) is None {
                w.push(path + ": invalid resource URL; field ignored"@)
            } else {
                w
            },
        },
        None => w,
    }
}

/// Reads a resource address with one name and resolves it against the base.
pub fn resource_url(v: Option<&Json>, path: &str, context: &mut MappingContext) -> (r: Option<
    String,
>)
    ensures
        text::opt_text(r) == resource_value(v, old(context).base_url@),
        final(context).warned() == resource_warned(
            v,
            old(context).base_url@,
            path@,
            old(context).warned(),
        ),
        final(context).base_url == old(context).base_url,
{
    match v {
        None => None,
        Some(j) => match resource_reference_candidate(j) {
            Candidate::Missing => None,
            Candidate::Invalid => {
                context.warn(path, ": expected resource URL string; field ignored");
                None
            },
            Candidate::Value(reference) => match url::resolve(
                context.base_url.as_str(),
                reference.as_str(),
            ) {
                Ok(address) => Some(address),
                Err(_) => {
                    context.warn(path, ": invalid resource URL; field ignored");
                    None
                },
            },
        },
    }
}

/// The first member with one of the given names that leads to an address.
pub open spec fn alias_resource_value(
    ms: Seq<Member>,
    aliases: Seq<Seq<char>>,
    base: Seq<char>,
) -> Option<Seq<char>>
    decreases aliases.len(),
{
    if aliases.len() == 0 {
        None
    } else {
        match resource_value(json::lookup(ms, aliases[0]), base) {
            Some(x) => Some(x),
            None => alias_resource_value(ms, aliases.drop_first(), base),
        }
    }
}

/// The member is present, does not stand for nothing, and leads to no address.
pub open spec fn unusable_reference(v: Option<&Json>, base: Seq<char>) -> bool {
    v matches Some(j) && !(reference_of(*j) is Missing) && resource_value(v, base) is None
}

/// The warnings after a resource address was read by alias.
pub open spec fn alias_resource_warned(
    ms: Seq<Member>,
    list: Seq<char>,
    base: Seq<char>,
    path: Seq<char>,
    w: Seq<Seq<char>>,
) -> Seq<Seq<char>> {
    let all = names(list);
    if alias_resource_value(ms, all, base) is None && (exists|i: int|
        0 <= i < all.len() && unusable_reference(json::lookup(ms, #[trigger] all[i]), base)) {
        w.push(path + ": no alias contained a usable resource URL; field ignored"@)
    } else {
        w
    }
}

/// Reads a resource address by alias and resolves it against the base.
pub fn alias_resource_url(
    ms: &Vec<Member>,
    list: &str,
    path: &str,
    context: &mut MappingContext,
) -> (r: Option<String>)
    ensures
        text::opt_text(r) == alias_resource_value(ms@, names(list@), old(context).base_url@),
        final(context).warned() == alias_resource_warned(
            ms@,
            list@,
            old(context).base_url@,
            path@,
            old(context).warned(),
        ),
        final(context).base_url == old(context).base_url,
{
    let aliases = text::split(list, '|');
    let ghost all = names(list@);
    let ghost base = context.base_url@;
    let mut saw_invalid: bool = false;
    let mut i: usize = 0;
    assert(all.skip(0) =~= all);
    while i < aliases.len()
        invariant
            i <= aliases@.len(),
            text::texts(aliases@) == all,
            all == names(list@),
            *context == *old(context),
            base == context.base_url@,
            alias_resource_value(ms@, all, base) == alias_resource_value(
                ms@,
                all.skip(i as int),
                base,
            ),
            saw_invalid <==> exists|k: int|
                0 <= k < i && unusable_reference(json::lookup(ms@, #[trigger] all[k]), base),
        decreases aliases@.len() - i,
    {
        assert(all[i as int] == aliases@[i as int]@);
        assert(all.skip(i as int)[0] == all[i as int]);
        assert(all.skip(i as int).drop_first() =~= all.skip(i + 1));
        match json::get(ms, aliases[i].as_str()) {
            None => {},
            Some(j) => match resource_reference_candidate(j) {
                Candidate::Missing => {},
                Candidate::Invalid => {
                    saw_invalid = true;
                },
                Candidate::Value(reference) => match url::resolve(
                    context.base_url.as_str(),
                    reference.as_str(),
                ) {
                    Ok(address) => {
                        return Some(address);
                    },
                    Err(_) => {
                        saw_invalid = true;
                    },
                },
            },
        }
        i = i + 1;
    }
    if saw_invalid {
        context.warn(path, ": no alias contained a usable resource URL; field ignored");
    }
    None
}

/// The first `n` values of a list that do not stand for nothing, with their places.
pub open spec fn kept<'a>(vs: Seq<Json>, n: nat) -> Seq<(usize, &'a Json)>
    decreases n,
{
    if n == 0 {
        Seq::<(usize, &'a Json)>::empty()
    } else {
        let rest = kept(vs, (n - 1) as nat);
        if json::missing(vs[n - 1]) {
            rest
        } else {
            rest.push(((n - 1) as usize, &vs[n - 1]))
        }
    }
}

/// The entries of a list, or the one entry that stands in place of a list.
pub open spec fn entries<'a>(v: &'a Json) -> Seq<(usize, &'a Json)> {
    if json::missing(*v) {
        Seq::<(usize, &'a Json)>::empty()
    } else {
        match *v {
            Json::List(vs) => kept(vs@, vs@.len()),
            Json::Object(_) => seq![(0usize, v)],
            _ => Seq::<(usize, &'a Json)>::empty(),
        }
    }
}

fn list_entries<'a>(v: &'a Json, vs: &'a Vec<Json>) -> (r: Vec<(usize, &'a Json)>)
    ensures
        r@ == kept(vs@, vs@.len()),
{
    let mut r: Vec<(usize, &'a Json)> = Vec::new();
    let mut i: usize = 0;
    while i < vs.len()
        invariant
            i <= vs@.len(),
            r@ == kept(vs@, i as nat),
        decreases vs@.len() - i,
    {
        if !json::is_missing(&vs[i]) {
            r.push((i, &vs[i]));
        }
        i = i + 1;
    }
    r
}

/// The entries of an optional list.
pub open spec fn sequence_value<'a>(v: Option<&'a Json>) -> Seq<(usize, &'a Json)> {
    match v {
        Some(j) => entries(j),
        None => Seq::<(usize, &'a Json)>::empty(),
    }
}

/// The value can stand for a list, or for nothing.
pub open spec fn listable(v: Json) -> bool {
    json::missing(v) || v is List || v is Object
}

/// The warnings after a list was opened.
pub open spec fn sequence_warned(
    v: Option<&Json>,
    path: Seq<char>,
    w: Seq<Seq<char>>,
) -> Seq<Seq<char>> {
    if v matches Some(j) && !listable(*j) {
        w.push(path + ": expected array or object; ignored"@)
    } else {
        w
    }
}

/// Opens a list; an object stands for a list with one entry.
pub fn sequence<'a>(v: Option<&'a Json>, path: &str, context: &mut MappingContext) -> (r: Vec<
    (usize, &'a Json),
>)
    ensures
        r@ == sequence_value(v),
        final(context).warned() == sequence_warned(v, path@, old(context).warned()),
        final(context).base_url == old(context).base_url,
{
    match v {
        None => Vec::new(),
        Some(j) => {
            if json::is_missing(j) {
                return Vec::new();
            }
            match j {
                Json::List(vs) => list_entries(j, vs),
                Json::Object(_) => {
                    let mut r: Vec<(usize, &'a Json)> = Vec::new();
                    r.push((0, j));
                    assert(r@ =~= seq![(0usize, j)]);
                    r
                },
                _ => {
                    context.warn(path, ": expected array or object; ignored");
                    Vec::new()
                },
            }
        },
    }
}

/// The entries of the first member with one of the given names that is a list,
/// or stands for one.
pub open spec fn alias_sequence_value<'a>(
    ms: Seq<Member>,
    aliases: Seq<Seq<char>>,
) -> Option<Seq<(usize, &'a Json)>>
    decreases aliases.len(),
{
    if aliases.len() == 0 {
        None
    } else {
        match json::lookup(ms, aliases[0]) {
            Some(j) => if !json::missing(*j) && (*j is List || *j is Object) {
                Some(entries(j))
            } else {
                alias_sequence_value(ms, aliases.drop_first())
            },
            None => alias_sequence_value(ms, aliases.drop_first()),
        }
    }
}

/// The entries that a list read by alias has.
pub open spec fn alias_entries<'a>(ms: Seq<Member>, list: Seq<char>) -> Seq<(usize, &'a Json)> {
    match alias_sequence_value(ms, names(list)) {
        Some(es) => es,
        None => Seq::<(usize, &'a Json)>::empty(),
    }
}

/// The warnings after a list was read by alias.
pub open spec fn alias_sequence_warned(
    ms: Seq<Member>,
    list: Seq<char>,
    path: Seq<char>,
    w: Seq<Seq<char>>,
) -> Seq<Seq<char>> {
    let all = names(list);
    if alias_sequence_value(ms, all) is None && (exists|i: int|
        0 <= i < all.len() && (json::lookup(ms, #[trigger] all[i]) matches Some(j) && !listable(*j))) {
        w.push(path + ": no alias contained an array or object; ignored"@)
    } else {
        w
    }
}

/// Opens a list by alias.
pub fn alias_sequence<'a>(
    ms: &'a Vec<Member>,
    list: &str,
    path: &str,
    context: &mut MappingContext,
) -> (r: Vec<(usize, &'a Json)>)
    ensures
        r@ == alias_entries(ms@, list@),
        final(context).warned() == alias_sequence_warned(ms@, list@, path@, old(context).warned()),
        final(context).base_url == old(context).base_url,
{
    let aliases = text::split(list, '|');
    let ghost all = names(list@);
    let mut saw_invalid: bool = false;
    let mut i: usize = 0;
    assert(all.skip(0) =~= all);
    while i < aliases.len()
        invariant
            i <= aliases@.len(),
            text::texts(aliases@) == all,
            all == names(list@),
            *context == *old(context),
            alias_sequence_value(ms@, all) == alias_sequence_value(ms@, all.skip(i as int)),
            saw_invalid <==> exists|k: int|
                0 <= k < i && (json::lookup(ms@, #[trigger] all[k]) matches Some(j) && !listable(
                    *j,
                )),
        decreases aliases@.len() - i,
    {
        assert(all[i as int] == aliases@[i as int]@);
        assert(all.skip(i as int)[0] == all[i as int]);
        assert(all.skip(i as int).drop_first() =~= all.skip(i + 1));
        match json::get(ms, aliases[i].as_str()) {
            None => {},
            Some(j) => {
                if !json::is_missing(j) {
                    match j {
                        Json::List(vs) => {
                            return list_entries(j, vs);
                        },
                        Json::Object(_) => {
                            let mut r: Vec<(usize, &'a Json)> = Vec::new();
                            r.push((0, j));
                            assert(r@ =~= seq![(0usize, j)]);
                            return r;
                        },
                        _ => {
                            saw_invalid = true;
                        },
                    }
                }
            },
        }
        i = i + 1;
    }
    if saw_invalid {
        context.warn(path, ": no alias contained an array or object; ignored");
    }
    Vec::new()
}

/// Text is read without the white space around it, and a number as it is written; a truth
/// value, a list and an object are no text.
pub proof fn values_are_read_as_text(v: Json)
    ensures
        json::missing(v) ==> <String as Scalar>::read(v) is Missing,
        !json::missing(v) ==> match v {
            Json::Text(t) => <String as Scalar>::read(v) == Candidate::Value(
                text::trimmed(t.text@),
            ),
            Json::Number(n) => <String as Scalar>::read(v) == Candidate::Value(n.text@),
            _ => <String as Scalar>::read(v) is Invalid,
        },
        <String as Scalar>::kind() == "string"@,
{
}

/// A number is read as such, and so is text that denotes one; what is not finite is none.
pub proof fn values_are_read_as_numbers(v: Json)
    ensures
        json::missing(v) ==> <Reading as Scalar>::read(v) is Missing,
        !json::missing(v) ==> match v {
            Json::Number(n) => if n.reading.finite() {
                <Reading as Scalar>::read(v) == Candidate::Value(n.reading)
            } else {
                <Reading as Scalar>::read(v) is Invalid
            },
            Json::Text(t) => if t.reading is Some && t.reading.unwrap().finite() {
                <Reading as Scalar>::read(v) == Candidate::Value(t.reading.unwrap())
            } else {
                <Reading as Scalar>::read(v) is Invalid
            },
            _ => <Reading as Scalar>::read(v) is Invalid,
        },
        <Reading as Scalar>::kind() == "number"@,
{
}

/// A count is read from a number of at most 32 bits without a sign, and from text that holds
/// its digits.
pub proof fn values_are_read_as_counts(v: Json)
    ensures
        json::missing(v) ==> <u32 as Scalar>::read(v) is Missing,
        !json::missing(v) ==> match v {
            Json::Number(n) => if n.whole is Some && n.whole.unwrap() <= 4_294_967_295 {
                <u32 as Scalar>::read(v) == Candidate::Value(n.whole.unwrap() as u32)
            } else {
                <u32 as Scalar>::read(v) is Invalid
            },
            Json::Text(t) => if text::count_of(text::trimmed(t.text@)) is Some {
                <u32 as Scalar>::read(v) == Candidate::Value(
                    text::count_of(text::trimmed(t.text@)).unwrap() as u32,
                )
            } else {
                <u32 as Scalar>::read(v) is Invalid
            },
            _ => <u32 as Scalar>::read(v) is Invalid,
        },
        <u32 as Scalar>::kind() == "non-negative integer"@,
{
}

/// An address is read from text only.
pub proof fn values_are_read_as_addresses(v: Json)
    ensures
        json::missing(v) ==> reference_of(v) is Missing,
        !json::missing(v) ==> match v {
            Json::Text(t) => reference_of(v) == Candidate::Value(text::trimmed(t.text@)),
            _ => reference_of(v) is Invalid,
        },
{
}

/// A section is opened where it is an object that holds something; there is a warning where
/// it holds something and is no object.
pub proof fn sections_are_objects(
    v: Json,
    path: Seq<char>,
    complaint: Seq<char>,
    w: Seq<Seq<char>>,
)
    ensures
        section(None) is None,
        section(Some(&v)) is Some <==> v is Object && !json::missing(v),
        v matches Json::Object(ms) ==> (section(Some(&v)) is Some ==> section(Some(&v)) == Some(ms@)),
        section_warned(None, path, complaint, w) == w,
        v is Object || json::missing(v) ==> section_warned(Some(&v), path, complaint, w) == w,
        !(v is Object) && !json::missing(v) ==> section_warned(Some(&v), path, complaint, w)
            == w.push(path + complaint),
{
}

/// A part of a section is its member, and a section that is absent has none.
pub proof fn parts_are_members(ms: Seq<Member>, name: Seq<char>)
    ensures
        part(Some(ms), name) == json::lookup(ms, name),
        part(None, name) is None,
{
}

/// A field has the value that is read, and there is a warning exactly where what is there is
/// of the wrong kind.
pub proof fn fields_have_what_is_read<T: Scalar>(
    v: Json,
    x: T::V,
    path: Seq<char>,
    w: Seq<Seq<char>>,
)
    ensures
        fixed_value::<T>(None) is None,
        T::read(v) == Candidate::Value(x) ==> fixed_value::<T>(Some(&v)) == Some(x),
        !(T::read(v) is Value) ==> fixed_value::<T>(Some(&v)) is None,
        fixed_warned::<T>(None, path, w) == w,
        T::read(v) is Invalid ==> fixed_warned::<T>(Some(&v), path, w) == w.push(
            path + (": expected "@ + T::kind() + "; field ignored"@),
        ),
        !(T::read(v) is Invalid) ==> fixed_warned::<T>(Some(&v), path, w) == w,
{
}

/// Of the aliases of a field the first counts that has a usable value.
pub proof fn the_first_usable_alias_counts<T: Scalar>(
    ms: Seq<Member>,
    aliases: Seq<Seq<char>>,
    k: int,
)
    ensures
        0 <= k < aliases.len() && fixed_value::<T>(json::lookup(ms, aliases[k])) is Some && (forall|
            i: int,
        |
            0 <= i < k ==> fixed_value::<T>(json::lookup(ms, #[trigger] aliases[i])) is None)
            ==> alias_value::<T>(ms, aliases) == fixed_value::<T>(json::lookup(ms, aliases[k])),
        (forall|i: int|
            0 <= i < aliases.len() ==> fixed_value::<T>(json::lookup(ms, #[trigger] aliases[i]))
                is None) ==> alias_value::<T>(ms, aliases) is None,
    decreases aliases.len(),
{
    if aliases.len() > 0 {
        let rest = aliases.drop_first();
        assert forall|i: int| 0 <= i < rest.len() implies #[trigger] rest[i] == aliases[i + 1] by {}
        the_first_usable_alias_counts::<T>(ms, rest, k - 1);
        if fixed_value::<T>(json::lookup(ms, aliases[0])) is None {
            if 0 < k < aliases.len() {
                assert(rest[k - 1] == aliases[k]);
            }
        }
    }
}

/// A field that is read by alias is complained of exactly where no alias has a usable value
/// and one has a value of the wrong kind.
pub proof fn unusable_aliases_are_told<T: Scalar>(
    ms: Seq<Member>,
    list: Seq<char>,
    path: Seq<char>,
    w: Seq<Seq<char>>,
)
    ensures
        alias_value::<T>(ms, names(list)) is Some ==> alias_warned::<T>(ms, list, path, w) == w,
        alias_value::<T>(ms, names(list)) is None && (exists|i: int|
            0 <= i < names(list).len() && (json::lookup(ms, #[trigger] names(list)[i]) matches Some(
                j,
            ) && T::read(*j) is Invalid)) ==> alias_warned::<T>(ms, list, path, w) == w.push(
            path + (": no alias contained a usable "@ + T::kind() + "; field ignored"@),
        ),
        (forall|i: int|
            0 <= i < names(list).len() ==> !(json::lookup(
                ms,
                #[trigger] names(list)[i],
            ) matches Some(j) && T::read(*j) is Invalid)) ==> alias_warned::<T>(ms, list, path, w)
            == w,
{
}

/// Aliases are parted by bars.
pub proof fn aliases_are_parted_by_bars(a: Seq<char>, b: Seq<char>)
    requires
        !a.contains('|'),
    ensures
        names(a) == seq![a],
        names(a + "|"@ + b)[0] == a,
        text::joined(names(b), "|"@) == b,
{
    reveal_strlit("|");
    assert("|"@ =~= seq!['|']);
    text::first_piece_ends_at_the_separator(a, '|', b);
    text::pieces_join_again(b, '|');
}

/// An address is resolved against the base; there is a warning where what is there is no
/// text or leads nowhere.
pub proof fn addresses_are_resolved(
    v: Json,
    x: Seq<char>,
    base: Seq<char>,
    path: Seq<char>,
    w: Seq<Seq<char>>,
)
    ensures
        resource_value(None, base) is None,
        resource_warned(None, base, path, w) == w,
        reference_of(v) == Candidate::Value(x) ==> resource_value(Some(&v), base) == url::address(
            base,
            x,
        ),
        !(reference_of(v) is Value) ==> resource_value(Some(&v), base) is None,
        resource_value(Some(&v), base) is Some || reference_of(v) is Missing ==> resource_warned(
            Some(&v),
            base,
            path,
            w,
        ) == w,
        reference_of(v) is Invalid ==> resource_warned(Some(&v), base, path, w) == w.push(
            path + ": expected resource URL string; field ignored"@,
        ),
        reference_of(v) == Candidate::Value(x) && url::address(base, x) is None
            ==> resource_warned(Some(&v), base, path, w) == w.push(
            path + ": invalid resource URL; field ignored"@,
        ),
{
}

/// Of the aliases of an address the first counts that leads somewhere.
pub proof fn the_first_leading_alias_counts(
    ms: Seq<Member>,
    aliases: Seq<Seq<char>>,
    base: Seq<char>,
    k: int,
)
    ensures
        0 <= k < aliases.len() && resource_value(json::lookup(ms, aliases[k]), base) is Some && (
        forall|i: int|
            0 <= i < k ==> resource_value(json::lookup(ms, #[trigger] aliases[i]), base) is None)
            ==> alias_resource_value(ms, aliases, base) == resource_value(
            json::lookup(ms, aliases[k]),
            base,
        ),
        (forall|i: int|
            0 <= i < aliases.len() ==> resource_value(json::lookup(ms, #[trigger] aliases[i]), base)
                is None) ==> alias_resource_value(ms, aliases, base) is None,
    decreases aliases.len(),
{
    if aliases.len() > 0 {
        let rest = aliases.drop_first();
        assert forall|i: int| 0 <= i < rest.len() implies #[trigger] rest[i] == aliases[i + 1] by {}
        the_first_leading_alias_counts(ms, rest, base, k - 1);
        if resource_value(json::lookup(ms, aliases[0]), base) is None {
            if 0 < k < aliases.len() {
                assert(rest[k - 1] == aliases[k]);
            }
        }
    }
}

/// An address that is read by alias is complained of exactly where no alias leads somewhere
/// and one holds something that does not.
pub proof fn aliases_that_lead_nowhere_are_told(
    ms: Seq<Member>,
    list: Seq<char>,
    base: Seq<char>,
    path: Seq<char>,
    w: Seq<Seq<char>>,
)
    ensures
        alias_resource_value(ms, names(list), base) is Some ==> alias_resource_warned(
            ms,
            list,
            base,
            path,
            w,
        ) == w,
        (forall|i: int|
            0 <= i < names(list).len() ==> (json::lookup(
                ms,
                #[trigger] names(list)[i],
            ) matches Some(j) ==> reference_of(*j) is Missing)) ==> alias_resource_warned(
            ms,
            list,
            base,
            path,
            w,
        ) == w,
        alias_resource_value(ms, names(list), base) is None && (exists|i: int|
            0 <= i < names(list).len() && (json::lookup(ms, #[trigger] names(list)[i]) matches Some(
                j,
            ) && !(reference_of(*j) is Missing) && resource_value(Some(j), base) is None))
            ==> alias_resource_warned(ms, list, base, path, w) == w.push(
            path + ": no alias contained a usable resource URL; field ignored"@,
        ),
{
}

/// A list keeps the values that hold something, with their places and in their order.
pub proof fn lists_keep_what_holds_something(vs: Seq<Json>, n: nat, k: int)
    requires
        n <= vs.len(),
        n <= usize::MAX,
    ensures
        0 <= k < n && !json::missing(vs[k]) ==> kept(vs, k as nat).len() < kept(vs, n).len()
            && kept(vs, n)[kept(vs, k as nat).len() as int] == (k as usize, &vs[k]),
        0 <= k < n && json::missing(vs[k]) ==> kept(vs, (k + 1) as nat) == kept(vs, k as nat),
        0 <= k < kept(vs, n).len() ==> {
            let (place, value) = kept(vs, n)[k];
            place < n && *value == vs[place as int] && !json::missing(*value)
        },
        kept(vs, 0).len() == 0,
    decreases n,
{
    if n > 0 {
        lists_keep_what_holds_something(vs, (n - 1) as nat, k);
    }
}

/// An object stands for a list with one entry, and what is neither list nor object for none.
pub proof fn objects_stand_for_lists(
    v: Json,
    path: Seq<char>,
    w: Seq<Seq<char>>,
)
    ensures
        sequence_value(None).len() == 0,
        json::missing(v) ==> sequence_value(Some(&v)).len() == 0,
        v is Object && !json::missing(v) ==> sequence_value(Some(&v)) == seq![(0usize, &v)],
        v matches Json::List(vs) ==> (!json::missing(v) ==> sequence_value(Some(&v)) == kept(
            vs@,
            vs@.len(),
        )),
        !(v is List) && !(v is Object) ==> sequence_value(Some(&v)).len() == 0,
        sequence_warned(None, path, w) == w,
        json::missing(v) || v is List || v is Object ==> sequence_warned(Some(&v), path, w) == w,
        !json::missing(v) && !(v is List) && !(v is Object) ==> sequence_warned(Some(&v), path, w)
            == w.push(path + ": expected array or object; ignored"@),
{
}

/// Of the aliases of a list the first counts that is a list, or an object in its place, and
/// holds something.
pub proof fn the_first_listable_alias_counts(
    ms: Seq<Member>,
    aliases: Seq<Seq<char>>,
    k: int,
    v: Json,
)
    requires
        0 <= k < aliases.len(),
        json::lookup(ms, aliases[k]) == Some(&v),
        !json::missing(v),
        v is List || v is Object,
        forall|i: int|
            0 <= i < k ==> !(json::lookup(ms, #[trigger] aliases[i]) matches Some(j)
                && !json::missing(*j) && (*j is List || *j is Object)),
    ensures
        alias_sequence_value(ms, aliases) == Some(sequence_value(Some(&v))),
    decreases aliases.len(),
{
    if k > 0 {
        let rest = aliases.drop_first();
        assert forall|i: int| 0 <= i < rest.len() implies #[trigger] rest[i] == aliases[i + 1] by {}
        assert(!(json::lookup(ms, aliases[0]) matches Some(j) && !json::missing(*j) && (*j is List
            || *j is Object)));
        the_first_listable_alias_counts(ms, rest, k - 1, v);
    }
}

/// Where no alias is a list that holds something there are no entries; there is a warning
/// where one holds something that is no list.
pub proof fn aliases_without_lists_have_no_entries(
    ms: Seq<Member>,
    aliases: Seq<Seq<char>>,
    list: Seq<char>,
    path: Seq<char>,
    w: Seq<Seq<char>>,
)
    requires
        aliases == names(list),
        forall|i: int|
            0 <= i < aliases.len() ==> !(json::lookup(ms, #[trigger] aliases[i]) matches Some(j)
                && !json::missing(*j) && (*j is List || *j is Object)),
    ensures
        alias_entries(ms, list).len() == 0,
        (exists|i: int|
            0 <= i < aliases.len() && (json::lookup(ms, #[trigger] aliases[i]) matches Some(j)
                && !json::missing(*j))) ==> alias_sequence_warned(ms, list, path, w) == w.push(
            path + ": no alias contained an array or object; ignored"@,
        ),
        (forall|i: int|
            0 <= i < aliases.len() ==> (json::lookup(ms, #[trigger] aliases[i]) matches Some(j)
                ==> json::missing(*j))) ==> alias_sequence_warned(ms, list, path, w) == w,
{
    lemma_no_listable(ms, aliases);
}

proof fn lemma_no_listable(ms: Seq<Member>, aliases: Seq<Seq<char>>)
    requires
        forall|i: int|
            0 <= i < aliases.len() ==> !(json::lookup(ms, #[trigger] aliases[i]) matches Some(j)
                && !json::missing(*j) && (*j is List || *j is Object)),
    ensures
        alias_sequence_value(ms, aliases) is None,
    decreases aliases.len(),
{
    if aliases.len() > 0 {
        let rest = aliases.drop_first();
        assert forall|i: int| 0 <= i < rest.len() implies #[trigger] rest[i] == aliases[i + 1] by {}
        assert(!(json::lookup(ms, aliases[0]) matches Some(j) && !json::missing(*j) && (*j is List
            || *j is Object)));
        lemma_no_listable(ms, rest);
    }
}

pub(crate) proof fn lemma_one_name(a: Seq<char>)
    requires
        forall|i: int| 0 <= i < a.len() ==> #[trigger] a[i] != '|',
    ensures
        names(a) == seq![a],
{
    assert(!a.contains('|'));
    text::first_piece_ends_at_the_separator(a, '|', a);
}

pub(crate) proof fn lemma_names(a: Seq<char>, rest: Seq<char>)
    requires
        forall|i: int| 0 <= i < a.len() ==> #[trigger] a[i] != '|',
    ensures
        names(a + seq!['|'] + rest) == seq![a] + names(rest),
    decreases rest.len(),
{
    let s = a + seq!['|'] + rest;
    lemma_one_name(a);
    if rest.len() == 0 {
        assert(s.drop_last() =~= a);
        assert(s.last() == '|');
        assert(rest =~= Seq::<char>::empty());
        assert(names(s) =~= seq![a] + names(rest));
    } else {
        let t = rest.drop_last();
        lemma_names(a, t);
        text::pieces_are_some(t, '|');
        assert(s.drop_last() =~= a + seq!['|'] + t);
        assert(s.last() == rest.last());
        assert(names(s) =~= seq![a] + names(rest));
    }
}

pub(crate) proof fn lemma_prefix(a: Seq<Seq<char>>, b: Seq<Seq<char>>, c: Seq<Seq<char>>)
    requires
        a.is_prefix_of(b),
        b.is_prefix_of(c),
    ensures
        a.is_prefix_of(c),
        forall|x: Seq<char>| #[trigger] b.contains(x) ==> c.contains(x),
{
    assert(a =~= c.take(a.len() as int)) by {
        assert forall|i: int| 0 <= i < a.len() implies a[i] == c[i] by {
            assert(b.take(a.len() as int)[i] == b[i]);
            assert(c.take(b.len() as int)[i] == c[i]);
        }
    }
    assert forall|x: Seq<char>| #[trigger] b.contains(x) implies c.contains(x) by {
        let k = choose|k: int| 0 <= k < b.len() && b[k] == x;
        assert(c.take(b.len() as int)[k] == c[k]);
    }
}

pub(crate) proof fn lemma_pushed(w: Seq<Seq<char>>, x: Seq<char>)
    ensures
        w.is_prefix_of(w),
        w.is_prefix_of(w.push(x)),
        w.push(x).contains(x),
{
    assert(w.take(w.len() as int) =~= w);
    assert(w.push(x).take(w.len() as int) =~= w);
    assert(w.push(x)[w.len() as int] == x);
}

pub(crate) proof fn lemma_alias_told<T: Scalar>(
    ms: Seq<Member>,
    list: Seq<char>,
    path: Seq<char>,
    w: Seq<Seq<char>>,
)
    ensures
        w.is_prefix_of(alias_warned::<T>(ms, list, path, w)),
        alias_value::<T>(ms, names(list)) is None && alias_invalid::<T>(ms, names(list))
            ==> alias_warned::<T>(ms, list, path, w).contains(
            path + (": no alias contained a usable "@ + T::kind() + "; field ignored"@),
        ),
{
    lemma_pushed(w, path + (": no alias contained a usable "@ + T::kind() + "; field ignored"@));
}

pub(crate) proof fn lemma_fixed_told<T: Scalar>(
    v: Option<&Json>,
    path: Seq<char>,
    w: Seq<Seq<char>>,
)
    ensures
        w.is_prefix_of(fixed_warned::<T>(v, path, w)),
        v is Some && T::read(*v.unwrap()) is Invalid ==> fixed_warned::<T>(v, path, w).contains(
            path + (": expected "@ + T::kind() + "; field ignored"@),
        ),
{
    lemma_pushed(w, path + (": expected "@ + T::kind() + "; field ignored"@));
}

pub(crate) proof fn lemma_resource_told(
    v: Option<&Json>,
    base: Seq<char>,
    path: Seq<char>,
    w: Seq<Seq<char>>,
)
    ensures
        w.is_prefix_of(resource_warned(v, base, path, w)),
        v is Some && reference_of(*v.unwrap()) is Invalid ==> resource_warned(
            v,
            base,
            path,
            w,
        ).contains(path + ": expected resource URL string; field ignored"@),
        v is Some && reference_of(*v.unwrap()) is Value && resource_value(v, base) is None
            ==> resource_warned(v, base, path, w).contains(
            path + ": invalid resource URL; field ignored"@,
        ),
{
    lemma_pushed(w, path + ": expected resource URL string; field ignored"@);
    lemma_pushed(w, path + ": invalid resource URL; field ignored"@);
}

pub(crate) proof fn lemma_alias_resource_told(
    ms: Seq<Member>,
    list: Seq<char>,
    base: Seq<char>,
    path: Seq<char>,
    w: Seq<Seq<char>>,
)
    ensures
        w.is_prefix_of(alias_resource_warned(ms, list, base, path, w)),
{
    lemma_pushed(w, path + ": no alias contained a usable resource URL; field ignored"@);
}

pub(crate) proof fn lemma_section_told(
    v: Option<&Json>,
    path: Seq<char>,
    complaint: Seq<char>,
    w: Seq<Seq<char>>,
)
    ensures
        w.is_prefix_of(section_warned(v, path, complaint, w)),
        v is Some && !json::missing(*v.unwrap()) && !(*v.unwrap() is Object) ==> section_warned(
            v,
            path,
            complaint,
            w,
        ).contains(path + complaint),
{
    lemma_pushed(w, path + complaint);
}

pub(crate) proof fn lemma_sequence_told(v: Option<&Json>, path: Seq<char>, w: Seq<Seq<char>>)
    ensures
        w.is_prefix_of(sequence_warned(v, path, w)),
{
    lemma_pushed(w, path + ": expected array or object; ignored"@);
}

pub(crate) proof fn lemma_alias_sequence_told(
    ms: Seq<Member>,
    list: Seq<char>,
    path: Seq<char>,
    w: Seq<Seq<char>>,
)
    ensures
        w.is_prefix_of(alias_sequence_warned(ms, list, path, w)),
{
    lemma_pushed(w, path + ": no alias contained an array or object; ignored"@);
}

/// The value that is read of a member, if there is one and it is usable.
pub open spec fn usable<T: Scalar>(ms: Seq<Member>, name: Seq<char>) -> Option<T::V> {
    match json::lookup(ms, name) {
        Some(j) => match T::read(*j) {
            Candidate::Value(x) => Some(x),
            _ => None,
        },
        None => None,
    }
}

pub(crate) proof fn lemma_alias_unfold<T: Scalar>(ms: Seq<Member>, aliases: Seq<Seq<char>>)
    ensures
        aliases.len() == 0 ==> alias_value::<T>(ms, aliases) is None,
        aliases.len() > 0 ==> alias_value::<T>(ms, aliases) == if usable::<T>(ms, aliases[0])
            is Some {
            usable::<T>(ms, aliases[0])
        } else {
            alias_value::<T>(ms, aliases.drop_first())
        },
{
}

} // verus!
