//! Text operations shared by the whole library: trimming, searching, splitting,
//! joining, decimal numerals and code point order.

use vstd::prelude::*;

verus! {

/// `String::push`: appends the given character to the end of the string.
pub assume_specification[ String::push ](s: &mut String, c: char)
    ensures
        final(s)@ == old(s)@.push(c),
;

/// The characters with the Unicode `White_Space` property.
pub open spec fn white(c: char) -> bool {
    let n = c as int;
    ||| 9 <= n <= 13
    ||| n == 0x20
    ||| n == 0x85
    ||| n == 0xA0
    ||| n == 0x1680
    ||| 0x2000 <= n <= 0x200A
    ||| n == 0x2028
    ||| n == 0x2029
    ||| n == 0x202F
    ||| n == 0x205F
    ||| n == 0x3000
}

/// `s` without its leading white space.
pub open spec fn without_leading(s: Seq<char>) -> Seq<char>
    decreases s.len(),
{
    if s.len() > 0 && white(s[0]) {
        without_leading(s.drop_first())
    } else {
        s
    }
}

/// `s` without its trailing white space.
pub open spec fn without_trailing(s: Seq<char>) -> Seq<char>
    decreases s.len(),
{
    if s.len() > 0 && white(s.last()) {
        without_trailing(s.drop_last())
    } else {
        s
    }
}

/// `s` without leading and trailing white space.
pub open spec fn trimmed(s: Seq<char>) -> Seq<char> {
    without_trailing(without_leading(s))
}

/// Nothing but white space, possibly nothing at all.
pub open spec fn blank(s: Seq<char>) -> bool {
    trimmed(s).len() == 0
}

/// The contents of each string of a sequence.
pub open spec fn texts(v: Seq<String>) -> Seq<Seq<char>> {
    Seq::new(v.len(), |i: int| v[i]@)
}

/// The contents of an optional string.
pub open spec fn opt_text(o: Option<String>) -> Option<Seq<char>> {
    match o {
        Some(s) => Some(s@),
        None => None,
    }
}

/// The contents of an optional string slice.
pub open spec fn opt_str(o: Option<&str>) -> Option<Seq<char>> {
    match o {
        Some(s) => Some(s@),
        None => None,
    }
}

/// The contents of a string, or of the text that was told instead.
pub open spec fn outcome(r: Result<String, String>) -> Result<Seq<char>, Seq<char>> {
    match r {
        Ok(s) => Ok(s@),
        Err(e) => Err(e@),
    }
}

/// An error in a context.
pub open spec fn in_context(context: Seq<char>, error: Seq<char>) -> Seq<char> {
    context + ": "@ + error
}

/// `needle` occurs in `hay` starting at index `i`.
pub open spec fn occurs_at(hay: Seq<char>, needle: Seq<char>, i: int) -> bool {
    &&& 0 <= i
    &&& i + needle.len() <= hay.len()
    &&& hay.subrange(i, i + needle.len()) == needle
}

/// `needle` occurs somewhere in `hay`.
pub open spec fn occurs(hay: Seq<char>, needle: Seq<char>) -> bool {
    exists|i: int| occurs_at(hay, needle, i)
}

/// `hay` begins with `needle`.
pub open spec fn begins(hay: Seq<char>, needle: Seq<char>) -> bool {
    occurs_at(hay, needle, 0)
}

/// `hay` ends with `needle`.
pub open spec fn ends(hay: Seq<char>, needle: Seq<char>) -> bool {
    occurs_at(hay, needle, hay.len() - needle.len())
}

/// The pieces of `s` between the occurrences of `c`.
pub open spec fn pieces(s: Seq<char>, c: char) -> Seq<Seq<char>>
    decreases s.len(),
{
    if s.len() == 0 {
        seq![Seq::<char>::empty()]
    } else {
        let rest = pieces(s.drop_last(), c);
        if s.last() == c {
            rest.push(Seq::<char>::empty())
        } else {
            rest.drop_last().push(rest.last().push(s.last()))
        }
    }
}

/// The parts with `sep` between any two neighbours.
pub open spec fn joined(parts: Seq<Seq<char>>, sep: Seq<char>) -> Seq<char>
    decreases parts.len(),
{
    if parts.len() == 0 {
        Seq::<char>::empty()
    } else if parts.len() == 1 {
        parts[0]
    } else {
        joined(parts.drop_last(), sep) + sep + parts.last()
    }
}

/// The decimal digit of `n`, for `n` below ten.
pub open spec fn digit(n: nat) -> char {
    (48 + n) as char
}

/// The decimal numeral of `n`.
pub open spec fn numeral(n: nat) -> Seq<char>
    decreases n,
{
    if n < 10 {
        seq![digit(n)]
    } else {
        numeral(n / 10).push(digit(n % 10))
    }
}

/// The value of a run of decimal digits, most significant first.
pub open spec fn digits_value(s: Seq<char>) -> nat
    decreases s.len(),
{
    if s.len() == 0 {
        0
    } else {
        digits_value(s.drop_last()) * 10 + (s.last() as int - 48) as nat
    }
}

/// Decimal digits only.
pub open spec fn all_digits(s: Seq<char>) -> bool {
    forall|i: int| 0 <= i < s.len() ==> 48 <= (#[trigger] s[i]) as int <= 57
}

/// Splitting a text gives one piece at least.
pub proof fn pieces_are_some(s: Seq<char>, c: char)
    ensures
        pieces(s, c).len() > 0,
    decreases s.len(),
{
    if s.len() > 0 {
        pieces_are_some(s.drop_last(), c);
    }
}

/// `s` without one leading plus sign.
pub open spec fn without_plus(s: Seq<char>) -> Seq<char> {
    if s.len() > 0 && s[0] == '+' {
        s.drop_first()
    } else {
        s
    }
}

/// The number of at most 32 bits that the text denotes: an optional plus sign,
/// then one decimal digit or more.
pub open spec fn count_of(s: Seq<char>) -> Option<nat> {
    let d = without_plus(s);
    if d.len() > 0 && all_digits(d) && digits_value(d) <= u32::MAX {
        Some(digits_value(d))
    } else {
        None
    }
}

/// The decimal numeral of an integer, with a minus sign where it is negative.
pub open spec fn signed_numeral(n: int) -> Seq<char> {
    if n < 0 {
        "-"@ + numeral((-n) as nat)
    } else {
        numeral(n as nat)
    }
}

/// The ASCII lower case of one character.
pub open spec fn lower_char(c: char) -> char {
    if 65 <= c as int <= 90 {
        (c as int + 32) as char
    } else {
        c
    }
}

/// The ASCII lower case of a text.
pub open spec fn lower(s: Seq<char>) -> Seq<char> {
    Seq::new(s.len(), |i: int| lower_char(s[i]))
}

/// Code point order, the order of texts.
pub open spec fn text_le(a: Seq<char>, b: Seq<char>) -> bool
    decreases a.len(),
{
    if a.len() == 0 {
        true
    } else if b.len() == 0 {
        false
    } else if a[0] as int != b[0] as int {
        (a[0] as int) < b[0] as int
    } else {
        text_le(a.drop_first(), b.drop_first())
    }
}

/// Any two texts are comparable.
pub proof fn text_le_total(a: Seq<char>, b: Seq<char>)
    ensures
        text_le(a, b) || text_le(b, a),
    decreases a.len(),
{
    if a.len() > 0 && b.len() > 0 && a[0] as int == b[0] as int {
        text_le_total(a.drop_first(), b.drop_first());
    }
}

/// The order of texts is transitive.
pub proof fn text_le_transitive(a: Seq<char>, b: Seq<char>, c: Seq<char>)
    requires
        text_le(a, b),
        text_le(b, c),
    ensures
        text_le(a, c),
    decreases a.len(),
{
    if a.len() > 0 && b.len() > 0 && c.len() > 0 && a[0] as int == b[0] as int && b[0] as int
        == c[0] as int {
        text_le_transitive(a.drop_first(), b.drop_first(), c.drop_first());
    }
}

/// Two texts that precede each other are the same.
pub proof fn text_le_antisymmetric(a: Seq<char>, b: Seq<char>)
    requires
        text_le(a, b),
        text_le(b, a),
    ensures
        a == b,
    decreases a.len(),
{
    if a.len() > 0 && b.len() > 0 {
        assert(a[0] as int == b[0] as int);
        text_le_antisymmetric(a.drop_first(), b.drop_first());
        assert(a =~= seq![a[0]] + a.drop_first());
        assert(b =~= seq![b[0]] + b.drop_first());
    } else {
        assert(a =~= b);
    }
}

/// The characters of a text.
pub fn chars_of(s: &str) -> (v: Vec<char>)
    ensures
        v@ == s@,
{
    let mut v: Vec<char> = Vec::new();
    for c in it: s.chars()
        invariant
            v@.len() == it.index(),
            it.seq() == s@,
            forall|i: int| 0 <= i < v@.len() ==> v@[i] == it.seq()[i],
    {
        v.push(c);
    }
    assert(v@ =~= s@);
    v
}

/// Whether `c` is white space.
pub fn is_white(c: char) -> (w: bool)
    ensures
        w == white(c),
{
    let n: u32 = c as u32;
    (9 <= n && n <= 13) || n == 0x20 || n == 0x85 || n == 0xA0 || n == 0x1680 || (0x2000 <= n && n
        <= 0x200A) || n == 0x2028 || n == 0x2029 || n == 0x202F || n == 0x205F || n == 0x3000
}

pub(crate) proof fn lemma_skip_leading(s: Seq<char>, start: int)
    requires
        0 <= start <= s.len(),
        forall|i: int| 0 <= i < start ==> white(#[trigger] s[i]),
        start == s.len() || !white(s[start]),
    ensures
        without_leading(s) == s.subrange(start, s.len() as int),
    decreases start,
{
    if start > 0 {
        let t = s.drop_first();
        assert forall|i: int| 0 <= i < start - 1 implies white(#[trigger] t[i]) by {
            assert(t[i] == s[i + 1]);
        }
        if start < s.len() {
            assert(t[start - 1] == s[start]);
        }
        lemma_skip_leading(t, start - 1);
        assert(t.subrange(start - 1, t.len() as int) =~= s.subrange(start, s.len() as int));
    } else {
        assert(s.subrange(0, s.len() as int) =~= s);
    }
}

proof fn lemma_skip_trailing(s: Seq<char>, end: int)
    requires
        0 <= end <= s.len(),
        forall|i: int| end <= i < s.len() ==> white(#[trigger] s[i]),
        end == 0 || !white(s[end - 1]),
    ensures
        without_trailing(s) == s.subrange(0, end),
    decreases s.len() - end,
{
    if end < s.len() {
        let t = s.drop_last();
        lemma_skip_trailing(t, end);
        assert(t.subrange(0, end) =~= s.subrange(0, end));
    } else {
        assert(s.subrange(0, end) =~= s);
    }
}

/// The text without leading and trailing white space.
pub fn trim(s: &str) -> (r: &str)
    ensures
        r@ == trimmed(s@),
{
    let chars = chars_of(s);
    let mut start: usize = 0;
    while start < chars.len() && is_white(chars[start])
        invariant
            start <= chars@.len(),
            forall|i: int| 0 <= i < start ==> white(#[trigger] chars@[i]),
        decreases chars@.len() - start,
    {
        start = start + 1;
    }
    let mut end: usize = chars.len();
    while end > start && is_white(chars[end - 1])
        invariant
            start <= end <= chars@.len(),
            forall|i: int| end <= i < chars@.len() ==> white(#[trigger] chars@[i]),
        decreases end,
    {
        end = end - 1;
    }
    proof {
        let t = s@.subrange(start as int, s@.len() as int);
        lemma_skip_leading(s@, start as int);
        assert forall|i: int| end - start <= i < t.len() implies white(#[trigger] t[i]) by {
            assert(t[i] == chars@[i + start]);
        }
        if end > start {
            assert(t[end - start - 1] == chars@[end - 1]);
        }
        lemma_skip_trailing(t, end - start);
        assert(t.subrange(0, end - start) =~= s@.subrange(start as int, end as int));
    }
    s.substring_char(start, end)
}

/// Whether the text is empty or all white space.
pub fn is_blank(s: &str) -> (b: bool)
    ensures
        b == blank(s@),
{
    trim(s).is_empty()
}

/// Whether two texts are the same.
pub fn same(a: &str, b: &str) -> (r: bool)
    ensures
        r == (a@ == b@),
{
    let x = chars_of(a);
    let y = chars_of(b);
    if x.len() != y.len() {
        return false;
    }
    assert(x@.subrange(0, y@.len() as int) =~= x@);
    matches_at(&x, &y, 0)
}

/// Whether `needle` stands in `hay` at index `at`.
fn matches_at(hay: &Vec<char>, needle: &Vec<char>, at: usize) -> (r: bool)
    requires
        at + needle@.len() <= hay.len(),
    ensures
        r == (hay@.subrange(at as int, at + needle@.len()) == needle@),
{
    let mut i: usize = 0;
    while i < needle.len()
        invariant
            at + needle@.len() <= hay.len(),
            i <= needle@.len(),
            forall|k: int| 0 <= k < i ==> hay@[at + k] == #[trigger] needle@[k],
        decreases needle@.len() - i,
    {
        if hay[at + i] != needle[i] {
            proof {
                assert(hay@.subrange(at as int, at + needle@.len())[i as int] != needle@[i as int]);
            }
            return false;
        }
        i = i + 1;
    }
    assert(hay@.subrange(at as int, at + needle@.len()) =~= needle@);
    true
}

/// Whether `needle` occurs in `hay`.
pub fn contains(hay: &str, needle: &str) -> (r: bool)
    ensures
        r == occurs(hay@, needle@),
{
    let h = chars_of(hay);
    let n = chars_of(needle);
    if n.len() > h.len() {
        return false;
    }
    let last: usize = h.len() - n.len();
    let mut i: usize = 0;
    while i <= last
        invariant
            n@.len() <= h@.len(),
            last == h@.len() - n@.len(),
            i <= last + 1,
            h@ == hay@,
            n@ == needle@,
            forall|k: int| 0 <= k < i ==> !occurs_at(hay@, needle@, k),
        decreases h@.len() + 1 - i,
    {
        if matches_at(&h, &n, i) {
            assert(occurs_at(hay@, needle@, i as int));
            return true;
        }
        if i == last {
            return false;
        }
        i = i + 1;
    }
    false
}

/// Whether `hay` begins with `needle`.
pub fn starts_with(hay: &str, needle: &str) -> (r: bool)
    ensures
        r == begins(hay@, needle@),
{
    let h = chars_of(hay);
    let n = chars_of(needle);
    n.len() <= h.len() && matches_at(&h, &n, 0)
}

/// `hay` without the ending `needle`, if it has that ending.
pub fn strip_suffix<'a>(hay: &'a str, needle: &str) -> (r: Option<&'a str>)
    ensures
        r is Some <==> ends(hay@, needle@),
        r matches Some(rest) ==> rest@ == hay@.subrange(0, hay@.len() - needle@.len()),
{
    let h = chars_of(hay);
    let n = chars_of(needle);
    if n.len() <= h.len() && matches_at(&h, &n, h.len() - n.len()) {
        Some(hay.substring_char(0, h.len() - n.len()))
    } else {
        None
    }
}

/// The pieces of the text between the occurrences of `c`.
pub fn split(s: &str, c: char) -> (r: Vec<String>)
    ensures
        texts(r@) == pieces(s@, c),
{
    let chars = chars_of(s);
    let mut done: Vec<String> = Vec::new();
    let mut current = String::new();
    let mut i: usize = 0;
    proof {
        assert(texts(done@).push(current@) =~= pieces(s@.take(0), c));
    }
    while i < chars.len()
        invariant
            i <= chars@.len(),
            chars@ == s@,
            texts(done@).push(current@) == pieces(s@.take(i as int), c),
        decreases chars@.len() - i,
    {
        let ghost before = texts(done@).push(current@);
        proof {
            let t = s@.take(i + 1);
            assert(t.drop_last() =~= s@.take(i as int));
            assert(t.last() == chars@[i as int]);
            assert(before.drop_last() =~= texts(done@));
        }
        if chars[i] == c {
            let ghost old_done = done@;
            done.push(current);
            current = String::new();
            proof {
                assert(texts(done@) =~= before);
            }
        } else {
            current.push(chars[i]);
        }
        i = i + 1;
    }
    proof {
        assert(s@.take(chars@.len() as int) =~= s@);
    }
    let ghost all = texts(done@).push(current@);
    done.push(current);
    assert(texts(done@) =~= all);
    done
}

/// The parts with `sep` between any two neighbours.
pub fn join(parts: &Vec<String>, sep: &str) -> (r: String)
    ensures
        r@ == joined(texts(parts@), sep@),
{
    let mut r = String::new();
    let mut i: usize = 0;
    while i < parts.len()
        invariant
            i <= parts@.len(),
            r@ == joined(texts(parts@).take(i as int), sep@),
        decreases parts@.len() - i,
    {
        let ghost t = texts(parts@).take(i + 1);
        proof {
            assert(t.drop_last() =~= texts(parts@).take(i as int));
            assert(t.last() == parts@[i as int]@);
        }
        if i > 0 {
            r.append(sep);
        }
        let ghost before = r@;
        r.append(parts[i].as_str());
        proof {
            if i == 0 {
                assert(r@ =~= t[0]);
            }
        }
        i = i + 1;
    }
    assert(texts(parts@).take(parts@.len() as int) =~= texts(parts@));
    r
}

/// One text after the other.
pub fn cat(a: &str, b: &str) -> (r: String)
    ensures
        r@ == a@ + b@,
{
    a.to_owned().concat(b)
}

/// Whether two optional texts are the same, or both are absent.
pub fn same_optional(a: &Option<String>, b: &Option<String>) -> (r: bool)
    ensures
        r == (opt_text(*a) == opt_text(*b)),
{
    match (a, b) {
        (Some(a), Some(b)) => same(a.as_str(), b.as_str()),
        (None, None) => true,
        _ => false,
    }
}

/// A copy of an optional text.
pub fn copy_optional(t: &Option<String>) -> (r: Option<String>)
    ensures
        r == *t,
{
    match t {
        Some(s) => Some(s.clone()),
        None => None,
    }
}

/// A copy of the texts.
pub fn copy_all(v: &Vec<String>) -> (r: Vec<String>)
    ensures
        texts(r@) == texts(v@),
{
    let mut r: Vec<String> = Vec::new();
    let mut i: usize = 0;
    while i < v.len()
        invariant
            i <= v@.len(),
            r@ == v@.take(i as int),
        decreases v@.len() - i,
    {
        r.push(v[i].clone());
        i = i + 1;
        assert(r@ =~= v@.take(i as int));
    }
    assert(v@.take(v@.len() as int) =~= v@);
    r
}

/// An error in a context.
pub fn with_context(context: &str, error: &str) -> (r: String)
    ensures
        r@ == in_context(context@, error@),
{
    cat(context, ": ").concat(error)
}

/// The decimal numeral of `n`.
pub fn decimal(n: u64) -> (r: String)
    ensures
        r@ == numeral(n as nat),
    decreases n,
{
    let c = (48 + (n % 10) as u8) as char;
    if n < 10 {
        let mut r = String::new();
        r.push(c);
        assert(r@ =~= seq![digit(n as nat)]);
        r
    } else {
        let mut r = decimal(n / 10);
        r.push(c);
        r
    }
}

/// The decimal numeral of an integer.
pub fn signed_decimal(n: i64) -> (r: String)
    ensures
        r@ == signed_numeral(n as int),
{
    if n < 0 {
        let mut r = "-".to_owned();
        r.append(decimal((-(n as i128)) as u64).as_str());
        r
    } else {
        decimal(n as u64)
    }
}

proof fn lemma_digits_grow(s: Seq<char>, n: int)
    requires
        0 <= n <= s.len(),
        all_digits(s),
    ensures
        digits_value(s.take(n)) <= digits_value(s),
    decreases s.len() - n,
{
    if n < s.len() {
        let t = s.drop_last();
        assert(all_digits(t)) by {
            assert forall|i: int| 0 <= i < t.len() implies 48 <= (#[trigger] t[i]) as int <= 57 by {
                assert(t[i] == s[i]);
            }
        }
        lemma_digits_grow(t, n);
        assert(t.take(n) =~= s.take(n));
        assert(48 <= s[s.len() - 1] as int <= 57);
    } else {
        assert(s.take(n) =~= s);
    }
}

fn digit_value(c: char) -> (r: Option<u32>)
    ensures
        r == (if 48 <= c as int <= 57 {
            Some((c as int - 48) as u32)
        } else {
            None
        }),
{
    let n: u32 = c as u32;
    if 48 <= n && n <= 57 {
        Some(n - 48)
    } else {
        None
    }
}

/// The number of at most 32 bits that the text denotes.
pub fn parse_count(s: &str) -> (r: Option<u32>)
    ensures
        match r {
            Some(n) => count_of(s@) == Some(n as nat),
            None => count_of(s@) is None,
        },
{
    let chars = chars_of(s);
    let start: usize = if chars.len() > 0 && chars[0] == '+' {
        1
    } else {
        0
    };
    let ghost d = without_plus(s@);
    assert(d =~= s@.skip(start as int));
    if start == chars.len() {
        return None;
    }
    let mut n: u32 = 0;
    let mut i: usize = start;
    assert(d.take(0) =~= Seq::<char>::empty());
    while i < chars.len()
        invariant
            start <= i <= chars@.len(),
            chars@ == s@,
            d == without_plus(s@),
            d == s@.skip(start as int),
            d.len() > 0,
            n == digits_value(d.take(i - start)),
            forall|k: int| 0 <= k < i - start ==> 48 <= (#[trigger] d[k]) as int <= 57,
        decreases chars@.len() - i,
    {
        let ghost k = i - start;
        assert(d[k] == chars@[i as int]);
        assert(d.take(k + 1).drop_last() =~= d.take(k));
        match digit_value(chars[i]) {
            None => {
                assert(!all_digits(d));
                return None;
            },
            Some(v) => {
                assert(digits_value(d.take(k + 1)) == n * 10 + v);
                if n > 429_496_729 || (n == 429_496_729 && v > 5) {
                    proof {
                        if all_digits(d) {
                            lemma_digits_grow(d, k + 1);
                        }
                    }
                    return None;
                }
                n = n * 10 + v;
            },
        }
        i = i + 1;
    }
    assert(d.take(d.len() as int) =~= d);
    Some(n)
}

/// The text in ASCII lower case.
pub fn to_lower(s: &str) -> (r: String)
    ensures
        r@ == lower(s@),
{
    let chars = chars_of(s);
    let mut r = String::new();
    let mut i: usize = 0;
    while i < chars.len()
        invariant
            i <= chars@.len(),
            chars@ == s@,
            r@ == lower(s@).take(i as int),
        decreases chars@.len() - i,
    {
        let c = chars[i];
        let n: u32 = c as u32;
        if 65 <= n && n <= 90 {
            r.push((n as u8 + 32) as char);
        } else {
            r.push(c);
        }
        i = i + 1;
        assert(r@ =~= lower(s@).take(i as int));
    }
    assert(lower(s@).take(chars@.len() as int) =~= lower(s@));
    r
}

fn char_below(a: char, b: char) -> (r: bool)
    ensures
        r == ((a as int) < b as int),
{
    (a as u32) < (b as u32)
}

/// Whether `a` is before `b`, or the same text.
pub fn precedes(a: &str, b: &str) -> (r: bool)
    ensures
        r == text_le(a@, b@),
{
    let x = chars_of(a);
    let y = chars_of(b);
    let mut i: usize = 0;
    assert(a@.skip(0) =~= a@);
    assert(b@.skip(0) =~= b@);
    while i < x.len() && i < y.len() && x[i] == y[i]
        invariant
            i <= x@.len(),
            i <= y@.len(),
            x@ == a@,
            y@ == b@,
            text_le(a@, b@) == text_le(a@.skip(i as int), b@.skip(i as int)),
        decreases x@.len() - i,
    {
        proof {
            assert(a@.skip(i as int).drop_first() =~= a@.skip(i + 1));
            assert(b@.skip(i as int).drop_first() =~= b@.skip(i + 1));
        }
        i = i + 1;
    }
    if i >= x.len() {
        true
    } else if i >= y.len() {
        false
    } else {
        assert(a@.skip(i as int)[0] == x@[i as int]);
        assert(b@.skip(i as int)[0] == y@[i as int]);
        char_below(x[i], y[i])
    }
}

/// The order of lists of texts: the first texts that differ decide.
pub open spec fn keys_le(a: Seq<Seq<char>>, b: Seq<Seq<char>>) -> bool
    decreases a.len(),
{
    if a.len() == 0 {
        true
    } else if b.len() == 0 {
        false
    } else if a[0] != b[0] {
        text_le(a[0], b[0])
    } else {
        keys_le(a.drop_first(), b.drop_first())
    }
}

/// Any two lists of texts are comparable.
pub proof fn keys_le_total(a: Seq<Seq<char>>, b: Seq<Seq<char>>)
    ensures
        keys_le(a, b) || keys_le(b, a),
    decreases a.len(),
{
    if a.len() > 0 && b.len() > 0 {
        if a[0] != b[0] {
            text_le_total(a[0], b[0]);
        } else {
            keys_le_total(a.drop_first(), b.drop_first());
        }
    }
}

/// The order of lists of texts is transitive.
pub proof fn keys_le_transitive(a: Seq<Seq<char>>, b: Seq<Seq<char>>, c: Seq<Seq<char>>)
    requires
        keys_le(a, b),
        keys_le(b, c),
    ensures
        keys_le(a, c),
    decreases a.len(),
{
    if a.len() > 0 && b.len() > 0 && c.len() > 0 {
        if a[0] == b[0] && b[0] == c[0] {
            keys_le_transitive(a.drop_first(), b.drop_first(), c.drop_first());
        } else if a[0] != b[0] && b[0] != c[0] {
            text_le_transitive(a[0], b[0], c[0]);
            if a[0] == c[0] {
                text_le_antisymmetric(a[0], b[0]);
            }
        }
    }
}

/// Two lists of texts that precede each other are the same.
pub proof fn keys_le_antisymmetric(a: Seq<Seq<char>>, b: Seq<Seq<char>>)
    requires
        keys_le(a, b),
        keys_le(b, a),
    ensures
        a == b,
    decreases a.len(),
{
    if a.len() > 0 && b.len() > 0 {
        if a[0] != b[0] {
            text_le_antisymmetric(a[0], b[0]);
        } else {
            keys_le_antisymmetric(a.drop_first(), b.drop_first());
            assert(a =~= seq![a[0]] + a.drop_first());
            assert(b =~= seq![b[0]] + b.drop_first());
        }
    } else {
        assert(a =~= b);
    }
}

/// The texts of a list.
pub open spec fn strs(v: Seq<&str>) -> Seq<Seq<char>> {
    Seq::new(v.len(), |i: int| v[i]@)
}

/// Whether a list of texts may stand before another.
pub fn keys_precede(a: &Vec<&str>, b: &Vec<&str>) -> (r: bool)
    ensures
        r == keys_le(strs(a@), strs(b@)),
{
    let mut i: usize = 0;
    assert(strs(a@).skip(0) =~= strs(a@));
    assert(strs(b@).skip(0) =~= strs(b@));
    while i < a.len()
        invariant
            i <= a@.len(),
            i <= b@.len(),
            keys_le(strs(a@), strs(b@)) == keys_le(strs(a@).skip(i as int), strs(b@).skip(i as int)),
        decreases a@.len() - i,
    {
        if i >= b.len() {
            return false;
        }
        assert(strs(a@).skip(i as int)[0] == a@[i as int]@);
        assert(strs(b@).skip(i as int)[0] == b@[i as int]@);
        if !same(a[i], b[i]) {
            return precedes(a[i], b[i]);
        }
        assert(strs(a@).skip(i as int).drop_first() =~= strs(a@).skip(i + 1));
        assert(strs(b@).skip(i as int).drop_first() =~= strs(b@).skip(i + 1));
        i = i + 1;
    }
    true
}

/// The text is cut out of the middle: what is cut off on either side is white space, and
/// what is left neither starts nor ends with any.
pub proof fn trimming_cuts_white_space_off(s: Seq<char>)
    ensures
        exists|a: int, b: int|
            {
                &&& 0 <= a <= b <= s.len()
                &&& trimmed(s) == #[trigger] s.subrange(a, b)
                &&& forall|i: int| 0 <= i < a ==> white(#[trigger] s[i])
                &&& forall|i: int| b <= i < s.len() ==> white(#[trigger] s[i])
                &&& a < b ==> !white(s[a]) && !white(s[b - 1])
            },
        blank(s) <==> forall|i: int| 0 <= i < s.len() ==> white(#[trigger] s[i]),
{
    let a = lemma_leading(s);
    let t = without_leading(s);
    let n = lemma_trailing(t);
    let b = a + n;
    assert(t.take(n) =~= s.subrange(a, b));
    assert forall|i: int| b <= i < s.len() implies white(#[trigger] s[i]) by {
        assert(t[i - a] == s[i]);
    }
    if a < b {
        assert(t[0] == s[a]);
        assert(t[n - 1] == s[b - 1]);
    }
    assert(trimmed(s) == s.subrange(a, b));
    if n > 0 {
        assert(!white(s[a]));
    }
}

proof fn lemma_leading(s: Seq<char>) -> (a: int)
    ensures
        0 <= a <= s.len(),
        without_leading(s) == s.skip(a),
        forall|i: int| 0 <= i < a ==> white(#[trigger] s[i]),
        a < s.len() ==> !white(s[a]),
    decreases s.len(),
{
    if s.len() > 0 && white(s[0]) {
        let rest = s.drop_first();
        let a = lemma_leading(rest) + 1;
        assert(rest.skip(a - 1) =~= s.skip(a));
        assert forall|i: int| 0 <= i < a implies white(#[trigger] s[i]) by {
            if i > 0 {
                assert(rest[i - 1] == s[i]);
            }
        }
        if a < s.len() {
            assert(rest[a - 1] == s[a]);
        }
        a
    } else {
        assert(s.skip(0) =~= s);
        0
    }
}

proof fn lemma_trailing(s: Seq<char>) -> (n: int)
    ensures
        0 <= n <= s.len(),
        without_trailing(s) == s.take(n),
        forall|i: int| n <= i < s.len() ==> white(#[trigger] s[i]),
        n > 0 ==> !white(s[n - 1]),
    decreases s.len(),
{
    if s.len() > 0 && white(s.last()) {
        let rest = s.drop_last();
        let n = lemma_trailing(rest);
        assert(rest.take(n) =~= s.take(n));
        assert forall|i: int| n <= i < s.len() implies white(#[trigger] s[i]) by {
            if i < rest.len() {
                assert(rest[i] == s[i]);
            }
        }
        n
    } else {
        assert(s.take(s.len() as int) =~= s);
        s.len() as int
    }
}

/// Of the characters of ASCII, white space are the blank, the tab, the line feed and what
/// lies between that and the carriage return; of the others the wide blank is.
pub proof fn white_space_is_known(c: char)
    ensures
        (c as int) < 128 ==> (white(c) <==> c as int == 32 || 9 <= c as int <= 13),
        c as int == 0x3000 || c as int == 0xA0 ==> white(c),
        0x3001 <= c as int ==> !white(c),
{
}

/// Optional texts are told apart: none from every text, and texts by their characters.
pub proof fn optional_texts_are_told_apart(a: Option<String>, b: Option<String>)
    ensures
        opt_text(a) is None <==> a is None,
        opt_text(a) == opt_text(b) <==> match (a, b) {
            (None, None) => true,
            (Some(x), Some(y)) => x@ == y@,
            _ => false,
        },
{
}

/// A list of strings has their texts, in their order.
pub proof fn texts_stand_for_strings(v: Seq<String>, i: int)
    requires
        0 <= i < v.len(),
    ensures
        texts(v).len() == v.len(),
        texts(v)[i] == v[i]@,
{
}

/// A text occurs in what is built around it, begins what follows it and ends what it
/// follows; and nothing else is found.
pub proof fn occurrences_are_parts(hay: Seq<char>, needle: Seq<char>, a: Seq<char>, b: Seq<char>)
    ensures
        occurs(a + needle + b, needle),
        begins(needle + b, needle),
        ends(a + needle, needle),
        occurs(hay, needle) ==> exists|x: Seq<char>, y: Seq<char>| hay == #[trigger] (x + needle
            + y),
        begins(hay, needle) <==> needle.is_prefix_of(hay),
        ends(hay, needle) <==> needle.is_suffix_of(hay),
{
    let whole = a + needle + b;
    assert(whole.subrange(a.len() as int, (a.len() + needle.len()) as int) =~= needle);
    assert(occurs_at(whole, needle, a.len() as int));
    assert((needle + b).subrange(0, needle.len() as int) =~= needle);
    assert((a + needle).subrange(a.len() as int, (a.len() + needle.len()) as int) =~= needle);
    if occurs(hay, needle) {
        let i = choose|i: int| occurs_at(hay, needle, i);
        let x = hay.take(i);
        let y = hay.skip(i + needle.len());
        assert(hay =~= x + needle + y);
    }
    if needle.len() <= hay.len() {
        assert(hay.subrange(0, needle.len() as int) =~= hay.take(needle.len() as int));
    }
}

/// Splitting a text at a character and joining the pieces with it gives the text back, and
/// no piece holds the character.
pub proof fn pieces_join_again(s: Seq<char>, c: char)
    ensures
        joined(pieces(s, c), seq![c]) == s,
        forall|i: int| 0 <= i < pieces(s, c).len() ==> !(#[trigger] pieces(s, c)[i]).contains(c),
    decreases s.len(),
{
    let all = pieces(s, c);
    if s.len() == 0 {
        assert(all[0] =~= s);
    } else {
        let rest = pieces(s.drop_last(), c);
        pieces_join_again(s.drop_last(), c);
        pieces_are_some(s.drop_last(), c);
        assert(s =~= s.drop_last().push(s.last()));
        if s.last() == c {
            assert(all.drop_last() =~= rest);
            assert(joined(all, seq![c]) =~= s);
        } else {
            let before = rest.drop_last();
            let last = rest.last().push(s.last());
            assert(all.drop_last() =~= before);
            if before.len() == 0 {
                assert(joined(rest, seq![c]) == rest[0]);
                assert(joined(all, seq![c]) =~= s);
            } else {
                assert(joined(rest, seq![c]) == joined(before, seq![c]) + seq![c] + rest.last());
                assert(joined(all, seq![c]) =~= joined(before, seq![c]) + seq![c] + last);
                assert(joined(all, seq![c]) =~= s);
            }
            assert forall|i: int| 0 <= i < all.len() implies !(#[trigger] all[i]).contains(c) by {
                if i < before.len() {
                    assert(all[i] == rest[i]);
                } else {
                    assert(rest[before.len() as int] == rest.last());
                    assert(!rest.last().contains(c));
                    if last.contains(c) {
                        let k = choose|k: int| 0 <= k < last.len() && last[k] == c;
                        assert(rest.last()[k] == c);
                    }
                }
            }
        }
    }
}

/// Joined parts follow each other with the separator between them, and nowhere else.
pub proof fn joining_separates(parts: Seq<Seq<char>>, sep: Seq<char>, more: Seq<char>)
    ensures
        joined(Seq::<Seq<char>>::empty(), sep) == Seq::<char>::empty(),
        joined(seq![more], sep) == more,
        parts.len() > 0 ==> joined(parts.push(more), sep) == joined(parts, sep) + sep + more,
{
    assert(parts.push(more).drop_last() =~= parts);
}

/// A numeral holds digits only, has the value of the number, and starts with a zero only
/// where it is zero.
pub proof fn numerals_denote_their_number(n: nat)
    ensures
        all_digits(numeral(n)),
        digits_value(numeral(n)) == n,
        numeral(n).len() > 0,
        numeral(n)[0] == '0' ==> n == 0,
    decreases n,
{
    let s = numeral(n);
    if n >= 10 {
        numerals_denote_their_number(n / 10);
        let rest = numeral(n / 10);
        assert(s.drop_last() =~= rest);
        assert(s.last() as int == 48 + n % 10);
        assert forall|i: int| 0 <= i < s.len() implies 48 <= (#[trigger] s[i]) as int <= 57 by {
            if i < rest.len() {
                assert(s[i] == rest[i]);
            }
        }
    } else {
        assert(s.drop_last() =~= Seq::<char>::empty());
        assert(s.last() as int == 48 + n);
        assert(digits_value(s.drop_last()) == 0);
    }
}

/// The value of digits grows tenfold with each further digit.
pub proof fn digits_count_tenfold(s: Seq<char>, c: char)
    requires
        '0' <= c <= '9',
    ensures
        digits_value(Seq::<char>::empty()) == 0,
        digits_value(s.push(c)) == 10 * digits_value(s) + (c as int - '0' as int),
{
    assert(s.push(c).drop_last() =~= s);
}

/// A text denotes a number exactly where it holds digits, perhaps behind a plus sign, and
/// the number has at most 32 bits.
pub proof fn counts_are_read(s: Seq<char>, n: nat)
    ensures
        n <= u32::MAX ==> count_of(numeral(n)) == Some(n),
        n <= u32::MAX ==> count_of("+"@ + numeral(n)) == Some(n),
        n > u32::MAX ==> count_of(numeral(n)) is None,
        count_of(s) is Some ==> s.len() > 0 && forall|i: int|
            0 <= i < s.len() ==> '0' <= #[trigger] s[i] <= '9' || (i == 0 && s[0] == '+'),
{
    numerals_denote_their_number(n);
    let d = numeral(n);
    assert(d[0] as int >= 48);
    reveal_strlit("+");
    assert(("+"@ + d).drop_first() =~= d);
    if count_of(s) is Some {
        let d = without_plus(s);
        assert forall|i: int| 0 <= i < s.len() implies '0' <= #[trigger] s[i] <= '9' || (i == 0
            && s[0] == '+') by {
            if s[0] == '+' {
                if i > 0 {
                    assert(d[i - 1] == s[i]);
                }
            } else {
                assert(d[i] == s[i]);
            }
        }
    }
}

/// A numeral with a sign has the minus sign exactly where the number is negative.
pub proof fn signs_are_told(n: int)
    ensures
        n >= 0 ==> signed_numeral(n) == numeral(n as nat),
        n < 0 ==> signed_numeral(n) == "-"@ + numeral((-n) as nat),
{
}

/// Lower case changes the letters from A to Z, each to the same place from a on, and nothing
/// else.
pub proof fn lower_case_keeps_all_but_capitals(s: Seq<char>, i: int)
    requires
        0 <= i < s.len(),
    ensures
        lower(s).len() == s.len(),
        'A' <= s[i] <= 'Z' ==> lower(s)[i] as int - 'a' as int == s[i] as int - 'A' as int,
        !('A' <= s[i] <= 'Z') ==> lower(s)[i] == s[i],
{
}

/// Of two texts the one comes first that has the smaller character where they first differ,
/// or that ends there.
pub proof fn texts_are_ordered_by_their_first_difference(a: Seq<char>, b: Seq<char>, k: int)
    requires
        0 <= k <= a.len(),
        k <= b.len(),
        a.take(k) == b.take(k),
        k == a.len() || k == b.len() || a[k] != b[k],
    ensures
        k == a.len() ==> text_le(a, b),
        k == b.len() && k < a.len() ==> !text_le(a, b),
        k < a.len() && k < b.len() ==> (text_le(a, b) <==> (a[k] as int) < b[k] as int),
    decreases k,
{
    if k > 0 {
        assert(a.take(k)[0] == a[0] && b.take(k)[0] == b[0]);
        let x = a.drop_first();
        let y = b.drop_first();
        assert(x.take(k - 1) =~= a.take(k).drop_first());
        assert(y.take(k - 1) =~= b.take(k).drop_first());
        texts_are_ordered_by_their_first_difference(x, y, k - 1);
    }
}

/// Of two lists of texts the one comes first whose text comes first where they first differ,
/// or that ends there.
pub proof fn keys_are_ordered_by_their_first_difference(
    a: Seq<Seq<char>>,
    b: Seq<Seq<char>>,
    k: int,
)
    requires
        0 <= k <= a.len(),
        k <= b.len(),
        a.take(k) == b.take(k),
        k == a.len() || k == b.len() || a[k] != b[k],
    ensures
        k == a.len() ==> keys_le(a, b),
        k == b.len() && k < a.len() ==> !keys_le(a, b),
        k < a.len() && k < b.len() ==> (keys_le(a, b) <==> text_le(a[k], b[k])),
    decreases k,
{
    if k > 0 {
        assert(a.take(k)[0] == a[0] && b.take(k)[0] == b[0]);
        let x = a.drop_first();
        let y = b.drop_first();
        assert(x.take(k - 1) =~= a.take(k).drop_first());
        assert(y.take(k - 1) =~= b.take(k).drop_first());
        keys_are_ordered_by_their_first_difference(x, y, k - 1);
    }
}

/// The first piece of a text ends before the first separator, and is the whole text where
/// there is none.
pub proof fn first_piece_ends_at_the_separator(a: Seq<char>, c: char, b: Seq<char>)
    requires
        !a.contains(c),
    ensures
        pieces(a, c) == seq![a],
        pieces(a + seq![c] + b, c)[0] == a,
        pieces(a + seq![c] + b, c).len() >= 2,
    decreases b.len(),
{
    let s = a + seq![c] + b;
    lemma_one_piece(a, c);
    if b.len() == 0 {
        assert(s.drop_last() =~= a);
        assert(s.last() == c);
    } else {
        assert(s.drop_last() =~= a + seq![c] + b.drop_last());
        first_piece_ends_at_the_separator(a, c, b.drop_last());
    }
}

proof fn lemma_one_piece(a: Seq<char>, c: char)
    requires
        !a.contains(c),
    ensures
        pieces(a, c) == seq![a],
    decreases a.len(),
{
    if a.len() > 0 {
        let t = a.drop_last();
        assert forall|i: int| 0 <= i < t.len() implies t[i] != c by {
            assert(a[i] == t[i]);
            assert(a.contains(a[i]));
        }
        assert(a.contains(a[a.len() - 1]));
        lemma_one_piece(t, c);
        assert(t.push(a.last()) =~= a);
        assert(pieces(a, c) =~= seq![a]);
    } else {
        assert(a =~= Seq::<char>::empty());
        assert(pieces(a, c) =~= seq![a]);
    }
}

/// What is borrowed or told stands for its characters: none for none, an error for an error.
pub proof fn texts_are_told_as_they_are(
    s: &str,
    v: Seq<&str>,
    i: int,
    r: Result<String, String>,
    context: Seq<char>,
    error: Seq<char>,
)
    ensures
        opt_str(None) is None,
        opt_str(Some(s)) == Some(s@),
        strs(v).len() == v.len(),
        0 <= i < v.len() ==> strs(v)[i] == v[i]@,
        r matches Ok(x) ==> outcome(r) == Ok::<Seq<char>, Seq<char>>(x@),
        r matches Err(x) ==> outcome(r) == Err::<Seq<char>, Seq<char>>(x@),
        in_context(context, error) == context + ": "@ + error,
{
}

} // verus!
