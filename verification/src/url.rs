//! Addresses.
//!
//! `reqwest::Url` counts characters in 31 bits and keeps offsets in 32. What is too long for
//! that is not handed to it, but refused with the words in which it refuses addresses that
//! are too long.

use vstd::prelude::*;
use vstd::string::StrSliceExecFns;
use crate::text;

verus! {

/// What `reqwest::Url::join` makes of a reference and the base that
/// `reqwest::Url::parse` reads: the text of the address, or what is told of the one that
/// is refused.
pub uninterp spec fn joined(base: Seq<char>, reference: Seq<char>) -> Result<
    Seq<char>,
    Seq<char>,
>;

/// What `query_pairs_mut().extend_pairs` makes of the address that `reqwest::Url::join`
/// finds, and of the pairs: the text of the address with the pairs in its query, or what is
/// told of an address that is refused.
pub uninterp spec fn extended(
    base: Seq<char>,
    reference: Seq<char>,
    query: Seq<(Seq<char>, Seq<char>)>,
) -> Result<Seq<char>, Seq<char>>;

/// The scheme, the host and the port of an address that `reqwest::Url::parse`
/// reads, the port being the one that the address names or the scheme implies, or what is
/// told of an address that is refused.
pub uninterp spec fn origin_read(address: Seq<char>) -> Result<
    (Seq<char>, Option<Seq<char>>, Option<u16>),
    Seq<char>,
>;

/// The characters of the text can be counted in 31 bits.
pub open spec fn countable(s: Seq<char>) -> bool {
    s.len() <= i32::MAX
}

/// How many bytes a query takes to write the character: one where it stays as it is or is a
/// space, and else three for each of its bytes.
pub open spec fn char_room(c: char) -> nat {
    let n = c as int;
    if 'a' <= c <= 'z' || 'A' <= c <= 'Z' || '0' <= c <= '9' || c == '*' || c == '-' || c == '.'
        || c == '_' || c == ' ' {
        1
    } else if n < 0x80 {
        3
    } else if n < 0x800 {
        6
    } else if n < 0x10000 {
        9
    } else {
        12
    }
}

/// How many bytes a query takes to write the text.
pub open spec fn text_room(s: Seq<char>) -> nat
    decreases s.len(),
{
    if s.len() == 0 {
        0
    } else {
        text_room(s.drop_last()) + char_room(s.last())
    }
}

/// How many bytes a query takes to write the pairs, each with a separator before it and one
/// inside.
pub open spec fn query_room(query: Seq<(Seq<char>, Seq<char>)>) -> nat
    decreases query.len(),
{
    if query.len() == 0 {
        0
    } else {
        query_room(query.drop_last()) + text_room(query.last().0) + text_room(query.last().1) + 2
    }
}

/// Where the fragment of an address starts, or its end where it has none; looked for from
/// `i` on.
pub open spec fn fragment_start(address: Seq<char>, i: int) -> int
    decreases address.len() - i,
{
    if i < 0 || i >= address.len() || address[i] == '#' {
        i
    } else {
        fragment_start(address, i + 1)
    }
}

/// The address has a query.
pub open spec fn has_query(address: Seq<char>) -> bool {
    exists|i: int| 0 <= i < fragment_start(address, 0) && #[trigger] address[i] == '?'
}

/// Once the pairs are in the query of the address, 32-bit offsets reach the start of its
/// query and that of its fragment.
pub open spec fn offsets_fit(address: Seq<char>, query: Seq<(Seq<char>, Seq<char>)>) -> bool {
    let end = fragment_start(address, 0);
    &&& has_query(address) || end <= u32::MAX
    &&& end < address.len() ==> end + query_room(query) + 1 <= u32::MAX
}

/// What is told of an address that is too long.
pub open spec fn too_long() -> Seq<char> {
    "URLs more than 4 GB are not supported"@
}

/// What a reference against a base comes to: the text of the address, or why there is none.
pub open spec fn resolved(base: Seq<char>, reference: Seq<char>) -> Result<Seq<char>, Seq<char>> {
    if countable(base) && countable(reference) {
        joined(base, reference)
    } else {
        Err(too_long())
    }
}

/// What a reference against a base comes to, with the pairs appended to the query of the
/// address, or why there is no such address.
pub open spec fn queried(
    base: Seq<char>,
    reference: Seq<char>,
    query: Seq<(Seq<char>, Seq<char>)>,
) -> Result<Seq<char>, Seq<char>> {
    match resolved(base, reference) {
        Err(error) => Err(error),
        Ok(address) => if offsets_fit(address, query) {
            extended(base, reference, query)
        } else {
            Err(too_long())
        },
    }
}

/// The scheme, the host and the port of an address, or why it is none.
pub open spec fn origin(address: Seq<char>) -> Result<
    (Seq<char>, Option<Seq<char>>, Option<u16>),
    Seq<char>,
> {
    if countable(address) {
        origin_read(address)
    } else {
        Err(too_long())
    }
}

/// The address that a reference leads to, if it leads to one.
pub open spec fn address(base: Seq<char>, reference: Seq<char>) -> Option<Seq<char>> {
    match resolved(base, reference) {
        Ok(a) => Some(a),
        Err(_) => None,
    }
}

/// The contents of the pairs.
pub open spec fn pairs(query: Seq<(String, String)>) -> Seq<(Seq<char>, Seq<char>)> {
    Seq::new(query.len(), |i: int| (query[i].0@, query[i].1@))
}

/// The origin of an address.
pub struct Origin {
    pub scheme: String,
    pub host: Option<String>,
    pub port: Option<u16>,
}

/// The contents of an origin, or of the text that was told instead.
pub open spec fn origin_parts(o: Result<Origin, String>) -> Result<
    (Seq<char>, Option<Seq<char>>, Option<u16>),
    Seq<char>,
> {
    match o {
        Ok(o) => Ok((o.scheme@, text::opt_text(o.host), o.port)),
        Err(m) => Err(m@),
    }
}

/// Resolves a reference against a base with `reqwest::Url::parse` and
/// `reqwest::Url::join`. The address, or the text of the error, depends on the two texts
/// alone. Nothing that the crate counts on the way exceeds the characters of the texts.
#[verifier::external_body]
fn join_url(base: &str, reference: &str) -> (r: Result<String, String>)
    requires
        countable(base@),
        countable(reference@),
    ensures
        text::outcome(r) == joined(base@, reference@),
{
    match reqwest::Url::parse(base).and_then(|base| base.join(reference)) {
        Ok(address) => Ok(address.to_string()),
        Err(error) => Err(error.to_string()),
    }
}

/// Resolves a reference against a base as `join_url` does, and appends pairs to the query of
/// the address with `query_pairs_mut().extend_pairs` of `reqwest::Url`. The address, or the
/// text of the error, depends on the texts alone. The crate panics where the query or the
/// fragment would start beyond a 32-bit offset: no such address is asked for. Addresses are
/// written in ASCII, so that their characters are their bytes.
#[verifier::external_body]
fn append_query(base: &str, reference: &str, query: &Vec<(String, String)>) -> (r: Result<
    String,
    String,
>)
    requires
        countable(base@),
        countable(reference@),
        joined(base@, reference@) matches Ok(address) ==> offsets_fit(address, pairs(query@)),
    ensures
        text::outcome(r) == extended(base@, reference@, pairs(query@)),
{
    match reqwest::Url::parse(base).and_then(|base| base.join(reference)) {
        Ok(mut address) => {
            address.query_pairs_mut().extend_pairs(query.iter());
            Ok(address.to_string())
        },
        Err(error) => Err(error.to_string()),
    }
}

/// Reads the origin of an address with `scheme`, `host_str` and
/// `port_or_known_default` of `reqwest::Url`. It, or the text of the error, depends on the
/// text alone.
#[verifier::external_body]
fn read_origin(address: &str) -> (r: Result<Origin, String>)
    requires
        countable(address@),
    ensures
        origin_parts(r) == origin_read(address@),
{
    match reqwest::Url::parse(address) {
        Ok(address) => Ok(
            Origin {
                scheme: address.scheme().to_string(),
                host: address.host_str().map(|host| host.to_string()),
                port: address.port_or_known_default(),
            },
        ),
        Err(error) => Err(error.to_string()),
    }
}

fn is_countable(s: &str) -> (r: bool)
    ensures
        r == countable(s@),
{
    s.unicode_len() <= 0x7fff_ffff
}

proof fn lemma_room_grows(s: Seq<char>, k: int)
    requires
        0 <= k <= s.len(),
    ensures
        text_room(s.take(k)) <= text_room(s),
    decreases s.len(),
{
    if k < s.len() {
        lemma_room_grows(s.drop_last(), k);
        assert(s.drop_last().take(k) =~= s.take(k));
    } else {
        assert(s.take(k) =~= s);
    }
}

proof fn lemma_query_room_grows(query: Seq<(Seq<char>, Seq<char>)>, k: int)
    requires
        0 <= k <= query.len(),
    ensures
        query_room(query.take(k)) <= query_room(query),
    decreases query.len(),
{
    if k < query.len() {
        lemma_query_room_grows(query.drop_last(), k);
        assert(query.drop_last().take(k) =~= query.take(k));
    } else {
        assert(query.take(k) =~= query);
    }
}

fn room_for(c: char) -> (r: u32)
    ensures
        r == char_room(c),
{
    let n = c as u32;
    if ('a' <= c && c <= 'z') || ('A' <= c && c <= 'Z') || ('0' <= c && c <= '9') || c == '*' || c
        == '-' || c == '.' || c == '_' || c == ' ' {
        1
    } else if n < 0x80 {
        3
    } else if n < 0x800 {
        6
    } else if n < 0x10000 {
        9
    } else {
        12
    }
}

/// What is left of the room once the text is written, where it suffices.
fn room_after(s: &str, room: u32) -> (r: Option<u32>)
    ensures
        match r {
            Some(left) => left == room - text_room(s@),
            None => text_room(s@) > room,
        },
{
    let chars = text::chars_of(s);
    let mut left: u32 = room;
    let mut i: usize = 0;
    while i < chars.len()
        invariant
            chars@ == s@,
            i <= s@.len(),
            left == room - text_room(s@.take(i as int)),
        decreases s@.len() - i,
    {
        let wanted: u32 = room_for(chars[i]);
        proof {
            assert(s@.take(i + 1).drop_last() =~= s@.take(i as int));
            lemma_room_grows(s@, i + 1);
        }
        if left < wanted {
            return None;
        }
        left = left - wanted;
        i = i + 1;
    }
    assert(s@.take(i as int) =~= s@);
    Some(left)
}

fn query_fits(query: &Vec<(String, String)>, room: u32) -> (r: bool)
    ensures
        r == (query_room(pairs(query@)) <= room),
{
    let ghost all = pairs(query@);
    let mut left: u32 = room;
    let mut i: usize = 0;
    assert(query_room(all.take(0)) == 0);
    while i < query.len()
        invariant
            all == pairs(query@),
            i <= query@.len(),
            left == room - query_room(all.take(i as int)),
        decreases query@.len() - i,
    {
        proof {
            assert(all.take(i + 1).drop_last() =~= all.take(i as int));
            assert(all.take(i + 1).last() == (query@[i as int].0@, query@[i as int].1@));
            lemma_query_room_grows(all, i + 1);
        }
        let after_key: u32 = match room_after(query[i].0.as_str(), left) {
            Some(left) => left,
            None => {
                return false;
            },
        };
        let after_value: u32 = match room_after(query[i].1.as_str(), after_key) {
            Some(left) => left,
            None => {
                return false;
            },
        };
        if after_value < 2 {
            return false;
        }
        left = after_value - 2;
        i = i + 1;
    }
    assert(all.take(i as int) =~= all);
    true
}

fn can_take(address: &str, query: &Vec<(String, String)>) -> (r: bool)
    ensures
        r == offsets_fit(address@, pairs(query@)),
{
    let chars = text::chars_of(address);
    let mut end: usize = 0;
    let mut queried = false;
    while end < chars.len() && chars[end] != '#'
        invariant
            chars@ == address@,
            end <= address@.len(),
            fragment_start(address@, 0) == fragment_start(address@, end as int),
            queried == exists|i: int| 0 <= i < end && #[trigger] address@[i] == '?',
        decreases address@.len() - end,
    {
        if chars[end] == '?' {
            assert(address@[end as int] == '?');
            queried = true;
        }
        end = end + 1;
    }
    assert(fragment_start(address@, 0) == end);
    if !queried && end > 0xffff_ffff {
        return false;
    }
    if end < chars.len() {
        end < 0xffff_ffff && query_fits(query, 0xffff_ffff - 1 - end as u32)
    } else {
        true
    }
}

fn too_long_text() -> (m: String)
    ensures
        m@ == too_long(),
{
    "URLs more than 4 GB are not supported".to_owned()
}

/// Resolves a reference against a base.
pub fn resolve(base: &str, reference: &str) -> (r: Result<String, String>)
    ensures
        text::outcome(r) == resolved(base@, reference@),
{
    if is_countable(base) && is_countable(reference) {
        join_url(base, reference)
    } else {
        Err(too_long_text())
    }
}

/// Resolves a reference against a base, and appends pairs to the query of the address.
pub fn resolve_with_query(base: &str, reference: &str, query: &Vec<(String, String)>) -> (r: Result<
    String,
    String,
>)
    ensures
        text::outcome(r) == queried(base@, reference@, pairs(query@)),
{
    match resolve(base, reference) {
        Err(error) => Err(error),
        Ok(address) => {
            if can_take(address.as_str(), query) {
                append_query(base, reference, query)
            } else {
                Err(too_long_text())
            }
        },
    }
}

/// The origin of an address.
pub fn origin_of(address: &str) -> (r: Result<Origin, String>)
    ensures
        origin_parts(r) == origin(address@),
{
    if is_countable(address) {
        read_origin(address)
    } else {
        Err(too_long_text())
    }
}

/// Addresses of ordinary length come to what they are joined to; only texts of more than
/// 31 bits of characters are refused as too long.
pub proof fn ordinary_addresses_are_resolved(base: Seq<char>, reference: Seq<char>)
    ensures
        base.len() <= 2_147_483_647 && reference.len() <= 2_147_483_647 ==> resolved(base, reference)
            == joined(base, reference) && address(base, reference) == match joined(
            base,
            reference,
        ) {
            Ok(a) => Some(a),
            Err(_) => None,
        },
        base.len() > 2_147_483_647 || reference.len() > 2_147_483_647 ==> resolved(base, reference)
            is Err && address(base, reference) is None,
        base.len() <= 2_147_483_647 ==> origin(base) == origin_read(base),
        base.len() > 2_147_483_647 ==> origin(base) is Err,
{
}

/// Pairs are added to an address that holds no fragment and can be counted in 32 bits; an
/// address that is none stays none.
pub proof fn pairs_are_added_to_ordinary_addresses(
    base: Seq<char>,
    reference: Seq<char>,
    query: Seq<(Seq<char>, Seq<char>)>,
)
    ensures
        resolved(base, reference) is Err ==> queried(base, reference, query) == resolved(
            base,
            reference,
        ),
        resolved(base, reference) is Ok && !resolved(base, reference)->Ok_0.contains('#')
            && resolved(base, reference)->Ok_0.len() <= 4_294_967_295 ==> queried(
            base,
            reference,
            query,
        ) == extended(base, reference, query),
{
    if let Ok(a) = resolved(base, reference) {
        if !a.contains('#') {
            lemma_no_fragment(a, 0);
        }
    }
}

proof fn lemma_no_fragment(address: Seq<char>, i: int)
    requires
        !address.contains('#'),
        0 <= i <= address.len(),
    ensures
        fragment_start(address, i) == address.len(),
    decreases address.len() - i,
{
    if i < address.len() {
        assert(address.contains(address[i]));
        lemma_no_fragment(address, i + 1);
    }
}

/// Pairs stand for their texts, in their order.
pub proof fn pairs_stand_for_texts(query: Seq<(String, String)>, i: int)
    requires
        0 <= i < query.len(),
    ensures
        pairs(query).len() == query.len(),
        pairs(query)[i].0 == query[i].0@,
        pairs(query)[i].1 == query[i].1@,
{
}

} // verus!
