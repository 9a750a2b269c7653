//! Calendar dates and the date texts that providers send.

use vstd::prelude::*;
use chrono::Datelike;
use crate::text;

verus! {

/// The first year that a date can have.
pub const MIN_YEAR: i32 = -262143;

/// The last year that a date can have.
pub const MAX_YEAR: i32 = 262142;

/// A date of the proleptic Gregorian calendar.
#[derive(Clone, Copy, Debug, PartialEq, Eq, Structural)]
pub struct CivilDate {
    pub year: i32,
    pub month: u32,
    pub day: u32,
}

/// The year has a 29 February.
pub open spec fn leap(year: int) -> bool {
    year % 4 == 0 && (year % 100 != 0 || year % 400 == 0)
}

/// How many days the month has.
pub open spec fn month_days(year: int, month: int) -> int {
    if month == 2 {
        if leap(year) {
            29
        } else {
            28
        }
    } else if month == 4 || month == 6 || month == 9 || month == 11 {
        30
    } else {
        31
    }
}

/// There is such a date.
pub open spec fn on_calendar(year: int, month: int, day: int) -> bool {
    &&& MIN_YEAR <= year <= MAX_YEAR
    &&& 1 <= month <= 12
    &&& 1 <= day <= month_days(year, month)
}

/// How many days of the year come before the month.
pub open spec fn days_before_month(year: int, month: int) -> int
    decreases month,
{
    if month <= 1 {
        0
    } else {
        days_before_month(year, month - 1) + month_days(year, month - 1)
    }
}

/// The number of a date; 1 January of the year 1 has number 1.
pub open spec fn day_number(year: int, month: int, day: int) -> int {
    let y = year - 1;
    365 * y + y / 4 - y / 100 + y / 400 + days_before_month(year, month) + day
}

impl CivilDate {
    /// There is such a date.
    pub open spec fn valid(self) -> bool {
        on_calendar(self.year as int, self.month as int, self.day as int)
    }

    /// Earlier dates have lower ranks.
    pub open spec fn rank(self) -> int {
        self.year * 512 + self.month * 32 + self.day
    }

    /// The number of the date.
    pub open spec fn number(self) -> int {
        day_number(self.year as int, self.month as int, self.day as int)
    }
}

/// Two dates with the same rank are the same date.
pub proof fn rank_is_injective(a: CivilDate, b: CivilDate)
    requires
        a.valid(),
        b.valid(),
        a.rank() == b.rank(),
    ensures
        a == b,
{
}

/// `n` in decimal, with zeros in front up to `width` digits.
pub open spec fn padded(n: nat, width: nat) -> Seq<char>
    decreases width,
{
    let s = text::numeral(n);
    if s.len() >= width {
        s
    } else {
        Seq::new((width - s.len()) as nat, |i: int| '0') + s
    }
}

/// The year as dates are written: four digits at least, with a sign outside of
/// 0 to 9999.
pub open spec fn year_text(year: int) -> Seq<char> {
    if 0 <= year <= 9999 {
        padded(year as nat, 4)
    } else if year < 0 {
        "-"@ + padded((-year) as nat, 4)
    } else {
        "+"@ + padded(year as nat, 4)
    }
}

/// The date as it is written: year, month and day with hyphens between them.
pub open spec fn written(d: CivilDate) -> Seq<char> {
    year_text(d.year as int) + "-"@ + padded(d.month as nat, 2) + "-"@ + padded(d.day as nat, 2)
}

/// Year, month and day of the date that `chrono::NaiveDate::parse_from_str` reads
/// in a text by a format.
pub uninterp spec fn parsed(value: Seq<char>, format: Seq<char>) -> Option<(i32, u32, u32)>;

/// Year, month and day of an optional date.
pub open spec fn parts(d: Option<CivilDate>) -> Option<(i32, u32, u32)> {
    match d {
        Some(d) => Some((d.year, d.month, d.day)),
        None => None,
    }
}

/// Reads a date by a format with `chrono::NaiveDate::parse_from_str`. The outcome
/// depends on the two texts alone, and a date that is read is on the calendar.
#[verifier::external_body]
fn parse_date(value: &str, format: &str) -> (r: Option<CivilDate>)
    ensures
        parts(r) == parsed(value@, format@),
        r matches Some(d) ==> d.valid(),
{
    let date = chrono::NaiveDate::parse_from_str(value, format).ok()?;
    Some(CivilDate { year: date.year(), month: date.month(), day: date.day() })
}

/// Asks `chrono::NaiveDate::from_ymd_opt` whether there is such a date: the year is
/// in chrono's range, the month is one of twelve and the day one of the month's.
#[verifier::external_body]
fn date_exists(year: i32, month: u32, day: u32) -> (r: bool)
    ensures
        r == on_calendar(year as int, month as int, day as int),
{
    chrono::NaiveDate::from_ymd_opt(year, month, day).is_some()
}

/// The number of a date by `chrono::Datelike::num_days_from_ce`, which counts the
/// days of the proleptic Gregorian calendar from 1 January of the year 1, day one.
#[verifier::external_body]
fn days_from_ce(d: CivilDate) -> (r: i32)
    requires
        d.valid(),
    ensures
        r == d.number(),
{
    chrono::NaiveDate::from_ymd_opt(d.year, d.month, d.day).map_or(0, |date| date.num_days_from_ce())
}

/// Writes a date with `chrono::NaiveDate::format` and `%Y-%m-%d`: the year with four
/// digits at least and with a sign outside of 0 to 9999, month and day with two.
#[verifier::external_body]
pub(crate) fn write_date(d: CivilDate) -> (r: String)
    requires
        d.valid(),
    ensures
        r@ == written(d),
{
    let date = chrono::NaiveDate::from_ymd_opt(d.year, d.month, d.day);
    date.map_or(String::new(), |date| date.format("%Y-%m-%d").to_string())
}

/// The characters up to the first white space.
pub open spec fn word(s: Seq<char>) -> Seq<char>
    decreases s.len(),
{
    if s.len() > 0 && !text::white(s[0]) {
        seq![s[0]] + word(s.drop_first())
    } else {
        Seq::<char>::empty()
    }
}

/// The first word of a text, if it is not blank.
pub open spec fn first_word(s: Seq<char>) -> Option<Seq<char>> {
    let t = text::without_leading(s);
    if t.len() == 0 {
        None
    } else {
        Some(word(t))
    }
}

proof fn lemma_word(s: Seq<char>, n: int)
    requires
        0 <= n <= s.len(),
        forall|i: int| 0 <= i < n ==> !text::white(#[trigger] s[i]),
        n == s.len() || text::white(s[n]),
    ensures
        word(s) == s.take(n),
    decreases n,
{
    if n > 0 {
        let t = s.drop_first();
        assert forall|i: int| 0 <= i < n - 1 implies !text::white(#[trigger] t[i]) by {
            assert(t[i] == s[i + 1]);
        }
        if n < s.len() {
            assert(t[n - 1] == s[n]);
        }
        assert(!text::white(s[0]));
        lemma_word(t, n - 1);
        assert(seq![s[0]] + t.take(n - 1) =~= s.take(n));
    } else {
        assert(s.take(0) =~= Seq::<char>::empty());
    }
}

/// The first word of the text.
pub fn split_first_word(s: &str) -> (r: Option<&str>)
    ensures
        text::opt_str(r) == first_word(s@),
{
    let chars = text::chars_of(s);
    let mut start: usize = 0;
    while start < chars.len() && text::is_white(chars[start])
        invariant
            start <= chars@.len(),
            forall|i: int| 0 <= i < start ==> text::white(#[trigger] chars@[i]),
        decreases chars@.len() - start,
    {
        start = start + 1;
    }
    proof {
        text::lemma_skip_leading(s@, start as int);
    }
    if start == chars.len() {
        return None;
    }
    let mut end: usize = start;
    while end < chars.len() && !text::is_white(chars[end])
        invariant
            start <= end <= chars@.len(),
            forall|i: int| start <= i < end ==> !text::white(#[trigger] chars@[i]),
        decreases chars@.len() - end,
    {
        end = end + 1;
    }
    proof {
        let t = s@.subrange(start as int, s@.len() as int);
        assert forall|i: int| 0 <= i < end - start implies !text::white(#[trigger] t[i]) by {
            assert(t[i] == chars@[i + start]);
        }
        if end < chars@.len() {
            assert(t[end - start] == chars@[end as int]);
        }
        lemma_word(t, end - start);
        assert(t.take(end - start) =~= s@.subrange(start as int, end as int));
    }
    Some(s.substring_char(start, end))
}

/// The first outcome that is there.
pub open spec fn first_of(
    a: Option<(i32, u32, u32)>,
    b: Option<(i32, u32, u32)>,
    c: Option<(i32, u32, u32)>,
) -> Option<(i32, u32, u32)> {
    if a is Some {
        a
    } else if b is Some {
        b
    } else {
        c
    }
}

/// The date that the first word of a text gives in full.
pub open spec fn full_date(value: Seq<char>) -> Option<(i32, u32, u32)> {
    match first_word(value) {
        None => None,
        Some(w) => first_of(
            parsed(w, "%Y-%m-%d"@),
            parsed(w, "%Y/%m/%d"@),
            parsed(w, "%Y.%m.%d"@),
        ),
    }
}

/// The month and the day that the first word of a text gives; any day of a leap
/// year will do.
pub open spec fn month_day(value: Seq<char>) -> Option<(i32, u32, u32)> {
    match first_word(value) {
        None => None,
        Some(w) => first_of(
            parsed("2000-"@ + w, "%Y-%m-%d"@),
            parsed("2000-"@ + w, "%Y-%m/%d"@),
            parsed("2000-"@ + w, "%Y-%m.%d"@),
        ),
    }
}

/// How far apart two dates are, in days.
pub open spec fn distance(a: CivilDate, b: CivilDate) -> int {
    if a.number() <= b.number() {
        b.number() - a.number()
    } else {
        a.number() - b.number()
    }
}

/// The better of the best date so far and the same month and day in another year:
/// the one nearer to the base, and of two at the same distance the earlier found.
pub open spec fn nearer(
    best: Option<CivilDate>,
    year: int,
    month: u32,
    day: u32,
    base: CivilDate,
) -> Option<CivilDate> {
    if !on_calendar(year, month as int, day as int) {
        best
    } else {
        let c = CivilDate { year: year as i32, month, day };
        match best {
            None => Some(c),
            Some(b) => if distance(c, base) < distance(b, base) {
                Some(c)
            } else {
                best
            },
        }
    }
}

/// The date with the month and the day that is nearest to the base, among the
/// years around it.
pub open spec fn nearest(month: u32, day: u32, base: CivilDate) -> Option<CivilDate> {
    nearer(
        nearer(nearer(None, base.year - 1, month, day, base), base.year as int, month, day, base),
        base.year + 1,
        month,
        day,
        base,
    )
}

/// The date that a text gives, in full or by month and day around the base.
pub open spec fn relative_date(value: Seq<char>, base: CivilDate) -> Option<CivilDate> {
    match full_date(value) {
        Some((year, month, day)) => Some(CivilDate { year, month, day }),
        None => match month_day(value) {
            None => None,
            Some((_, month, day)) => nearest(month, day, base),
        },
    }
}

/// Reads a date given in full.
pub fn parse_full_date(value: &str) -> (r: Option<CivilDate>)
    ensures
        parts(r) == full_date(value@),
        r matches Some(d) ==> d.valid(),
{
    match split_first_word(value) {
        None => None,
        Some(w) => match parse_date(w, "%Y-%m-%d") {
            Some(d) => Some(d),
            None => match parse_date(w, "%Y/%m/%d") {
                Some(d) => Some(d),
                None => parse_date(w, "%Y.%m.%d"),
            },
        },
    }
}

fn parse_month_day(value: &str) -> (r: Option<CivilDate>)
    ensures
        parts(r) == month_day(value@),
        r matches Some(d) ==> d.valid(),
{
    match split_first_word(value) {
        None => None,
        Some(w) => {
            let dated = text::cat("2000-", w);
            match parse_date(dated.as_str(), "%Y-%m-%d") {
                Some(d) => Some(d),
                None => match parse_date(dated.as_str(), "%Y-%m/%d") {
                    Some(d) => Some(d),
                    None => parse_date(dated.as_str(), "%Y-%m.%d"),
                },
            }
        },
    }
}

fn days_apart(a: CivilDate, b: CivilDate) -> (r: i64)
    requires
        a.valid(),
        b.valid(),
    ensures
        r == distance(a, b),
{
    let x: i64 = days_from_ce(a) as i64;
    let y: i64 = days_from_ce(b) as i64;
    if x <= y {
        y - x
    } else {
        x - y
    }
}

fn take_nearer(
    best: Option<CivilDate>,
    year: i32,
    month: u32,
    day: u32,
    base: CivilDate,
) -> (r: Option<CivilDate>)
    requires
        base.valid(),
        best matches Some(b) ==> b.valid(),
    ensures
        r == nearer(best, year as int, month, day, base),
        r matches Some(d) ==> d.valid(),
{
    if !date_exists(year, month, day) {
        return best;
    }
    let c = CivilDate { year, month, day };
    match best {
        None => Some(c),
        Some(b) => if days_apart(c, base) < days_apart(b, base) {
            Some(c)
        } else {
            best
        },
    }
}

/// Reads a date given in full, or by month and day around the base.
pub fn parse_relative_date(value: &str, base: CivilDate) -> (r: Option<CivilDate>)
    requires
        base.valid(),
    ensures
        r == relative_date(value@, base),
        r matches Some(d) ==> d.valid(),
{
    match parse_full_date(value) {
        Some(d) => Some(d),
        None => match parse_month_day(value) {
            None => None,
            Some(d) => {
                let r = take_nearer(None, base.year - 1, d.month, d.day, base);
                let r = take_nearer(r, base.year, d.month, d.day, base);
                take_nearer(r, base.year + 1, d.month, d.day, base)
            },
        },
    }
}

/// Whether the text is a date by `%Y-%m-%d`.
pub fn is_hyphenated_date(value: &str) -> (r: bool)
    ensures
        r == (parsed(value@, "%Y-%m-%d"@) is Some),
{
    parse_date(value, "%Y-%m-%d").is_some()
}

/// Whether two dates are the same.
pub fn same_date(a: CivilDate, b: CivilDate) -> (r: bool)
    ensures
        r == (a == b),
{
    a.year == b.year && a.month == b.month && a.day == b.day
}

/// Whether the text gives the date, read around it.
pub fn gives_date(value: &str, date: CivilDate) -> (r: bool)
    requires
        date.valid(),
    ensures
        r == (relative_date(value@, date) == Some(date)),
{
    match parse_relative_date(value, date) {
        Some(d) => same_date(d, date),
        None => false,
    }
}

/// Whether the optional text gives the date, read around it.
pub fn optional_gives_date(value: &Option<String>, date: CivilDate) -> (r: bool)
    requires
        date.valid(),
    ensures
        r == (value matches Some(v) && relative_date(v@, date) == Some(date)),
{
    match value {
        Some(v) => gives_date(v.as_str(), date),
        None => false,
    }
}

/// Whether `a` is before `b` or the same date.
pub fn not_after(a: CivilDate, b: CivilDate) -> (r: bool)
    requires
        a.valid(),
        b.valid(),
    ensures
        r == (a.rank() <= b.rank()),
{
    a.year < b.year || (a.year == b.year && (a.month < b.month || (a.month == b.month && a.day
        <= b.day)))
}

/// Of two dates the earlier one has the lower rank: by year, then by month, then by day.
pub proof fn earlier_dates_have_lower_ranks(a: CivilDate, b: CivilDate)
    requires
        a.valid(),
        b.valid(),
    ensures
        a.rank() < b.rank() <==> {
            ||| a.year < b.year
            ||| a.year == b.year && a.month < b.month
            ||| a.year == b.year && a.month == b.month && a.day < b.day
        },
{
}

/// The months have their lengths: February 29 days in every fourth year, but not in the
/// hundredth unless it is the four hundredth.
pub proof fn months_have_their_lengths(year: int, month: int)
    ensures
        month == 4 || month == 6 || month == 9 || month == 11 ==> month_days(year, month) == 30,
        month == 1 || month == 3 || month == 5 || month == 7 || month == 8 || month == 10 || month
            == 12 ==> month_days(year, month) == 31,
        year % 4 != 0 ==> month_days(year, 2) == 28,
        year % 4 == 0 && year % 100 != 0 ==> month_days(year, 2) == 29,
        year % 100 == 0 && year % 400 != 0 ==> month_days(year, 2) == 28,
        year % 400 == 0 ==> month_days(year, 2) == 29,
{
}

/// The days are numbered one after the other: the next day of the month, the first day of
/// the next month and the first of the next year have the next number.
pub proof fn days_are_numbered_in_turn(year: int, month: int, day: int)
    requires
        1 <= month <= 12,
    ensures
        day_number(1, 1, 1) == 1,
        day_number(year, month, day + 1) == day_number(year, month, day) + 1,
        month < 12 ==> day_number(year, month + 1, 1) == day_number(
            year,
            month,
            month_days(year, month),
        ) + 1,
        day_number(year + 1, 1, 1) == day_number(year, 12, 31) + 1,
{
    reveal_with_fuel(days_before_month, 13);
    let y = year - 1;
    assert(days_before_month(year, 12) == if leap(year) {
        335int
    } else {
        334int
    });
    assert(year / 4 - y / 4 == if year % 4 == 0 {
        1int
    } else {
        0int
    });
    assert(year / 100 - y / 100 == if year % 100 == 0 {
        1int
    } else {
        0int
    });
    assert(year / 400 - y / 400 == if year % 400 == 0 {
        1int
    } else {
        0int
    });
    assert(year % 400 == 0 ==> year % 100 == 0);
    assert(year % 100 == 0 ==> year % 4 == 0);
}

/// A month and a day mean the date nearest to the base: one of the year before, the same
/// year or the year after, and none of the other two is nearer. There is one exactly where
/// one of the three years has that day.
pub proof fn the_nearest_date_is_meant(month: u32, day: u32, base: CivilDate, other: CivilDate)
    requires
        base.valid(),
        other.valid(),
        other.month == month,
        other.day == day,
        base.year - 1 <= other.year <= base.year + 1,
    ensures
        nearest(month, day, base) matches Some(d) && d.month == month && d.day == day
            && base.year - 1 <= d.year <= base.year + 1 && d.valid() && distance(d, base)
            <= distance(other, base) && (distance(d, base) == distance(other, base) ==> d.year
            <= other.year),
{
}

/// A month and a day that none of the three years around the base has mean no date.
pub proof fn days_that_never_are_mean_no_date(month: u32, day: u32, base: CivilDate)
    ensures
        nearest(month, day, base) is Some ==> on_calendar(base.year - 1, month as int, day as int)
            || on_calendar(base.year as int, month as int, day as int) || on_calendar(
            base.year + 1,
            month as int,
            day as int,
        ),
        !(1 <= month <= 12) ==> nearest(month, day, base) is None,
        day == 0 || day > 31 ==> nearest(month, day, base) is None,
{
}

/// The distance of two dates is the difference of their numbers, whichever is earlier.
pub proof fn distances_have_no_direction(a: CivilDate, b: CivilDate)
    ensures
        distance(a, b) == distance(b, a),
        distance(a, b) >= 0,
        a.number() <= b.number() ==> a.number() + distance(a, b) == b.number(),
{
}

/// A date that is given in full means itself, whatever the base; only a text that gives none
/// is read by month and day.
pub proof fn full_dates_mean_themselves(value: Seq<char>, base: CivilDate)
    ensures
        full_date(value) matches Some((y, m, d)) ==> relative_date(value, base) == Some(
            CivilDate { year: y, month: m, day: d },
        ),
        full_date(value) is None && month_day(value) is None ==> relative_date(value, base) is None,
        full_date(value) is None && month_day(value) is Some ==> relative_date(value, base)
            == nearest(month_day(value).unwrap().1, month_day(value).unwrap().2, base),
{
}

/// The first word of a text stands between white space, or at its ends.
pub proof fn words_stand_between_white_space(a: Seq<char>, w: Seq<char>, b: Seq<char>)
    requires
        forall|i: int| 0 <= i < a.len() ==> text::white(#[trigger] a[i]),
        forall|i: int| 0 <= i < w.len() ==> !text::white(#[trigger] w[i]),
        b.len() == 0 || text::white(b[0]),
    ensures
        w.len() > 0 ==> first_word(a + w + b) == Some(w),
        first_word(a) is None,
{
    let s = a + w + b;
    assert forall|i: int| 0 <= i < a.len() implies text::white(#[trigger] s[i]) by {
        assert(s[i] == a[i]);
    }
    text::lemma_skip_leading(a, a.len() as int);
    if w.len() > 0 {
        assert(s[a.len() as int] == w[0]);
        text::lemma_skip_leading(s, a.len() as int);
        let t = s.subrange(a.len() as int, s.len() as int);
        assert(t =~= w + b);
        assert forall|i: int| 0 <= i < w.len() implies !text::white(#[trigger] t[i]) by {
            assert(t[i] == w[i]);
        }
        if b.len() > 0 {
            assert(t[w.len() as int] == b[0]);
        }
        lemma_word(t, w.len() as int);
        assert(t.take(w.len() as int) =~= w);
    }
}

/// A word is read as a date with hyphens, else with slashes, else with dots; a word that is
/// none of these gives no full date.
pub proof fn dates_have_three_separators(w: Seq<char>)
    requires
        w.len() > 0,
        forall|i: int| 0 <= i < w.len() ==> !text::white(#[trigger] w[i]),
    ensures
        parsed(w, "%Y-%m-%d"@) is Some ==> full_date(w) == parsed(w, "%Y-%m-%d"@),
        parsed(w, "%Y-%m-%d"@) is None && parsed(w, "%Y/%m/%d"@) is Some ==> full_date(w)
            == parsed(w, "%Y/%m/%d"@),
        parsed(w, "%Y-%m-%d"@) is None && parsed(w, "%Y/%m/%d"@) is None ==> full_date(w)
            == parsed(w, "%Y.%m.%d"@),
        parsed("2000-"@ + w, "%Y-%m-%d"@) is Some ==> month_day(w) == parsed(
            "2000-"@ + w,
            "%Y-%m-%d"@,
        ),
        parsed("2000-"@ + w, "%Y-%m-%d"@) is None && parsed("2000-"@ + w, "%Y-%m/%d"@) is Some
            ==> month_day(w) == parsed("2000-"@ + w, "%Y-%m/%d"@),
        parsed("2000-"@ + w, "%Y-%m-%d"@) is None && parsed("2000-"@ + w, "%Y-%m/%d"@) is None
            ==> month_day(w) == parsed("2000-"@ + w, "%Y-%m.%d"@),
{
    words_stand_between_white_space(Seq::<char>::empty(), w, Seq::<char>::empty());
    assert(Seq::<char>::empty() + w + Seq::<char>::empty() =~= w);
}

/// Zeros in front of a numeral do not change its value, and give it the width.
pub proof fn padding_adds_zeros(n: nat, width: nat)
    ensures
        padded(n, width).len() >= width,
        text::numeral(n).is_suffix_of(padded(n, width)),
        padded(n, width).len() == width || padded(n, width) == text::numeral(n),
        forall|i: int|
            0 <= i < padded(n, width).len() - text::numeral(n).len() ==> #[trigger] padded(
                n,
                width,
            )[i] == '0',
{
    let s = text::numeral(n);
    let p = padded(n, width);
    assert(p.subrange(p.len() - s.len(), p.len() as int) =~= s);
}

/// The calendar has these years, and of each month the days that it has.
pub proof fn the_calendar_has_its_days(year: int, month: int, day: int)
    ensures
        on_calendar(year, month, day) <==> -262_143 <= year <= 262_142 && 1 <= month <= 12 && 1
            <= day <= month_days(year, month),
{
}

/// A date is written with its year, its month and its day, each with its digits; the year
/// has a sign where it has not four digits, and month and day have two.
pub proof fn dates_are_written_with_hyphens(d: CivilDate)
    requires
        d.valid(),
    ensures
        written(d) == text::joined(
            seq![year_text(d.year as int), padded(d.month as nat, 2), padded(d.day as nat, 2)],
            "-"@,
        ),
        0 <= d.year <= 9999 ==> year_text(d.year as int) == padded(d.year as nat, 4),
        d.year > 9999 ==> year_text(d.year as int) == "+"@ + padded(d.year as nat, 4),
        d.year < 0 ==> year_text(d.year as int) == "-"@ + padded((-d.year) as nat, 4),
{
    let y = year_text(d.year as int);
    let m = padded(d.month as nat, 2);
    let n = padded(d.day as nat, 2);
    assert(seq![y, m, n] =~= seq![y, m].push(n));
    assert(seq![y, m] =~= seq![y].push(m));
    text::joining_separates(seq![y, m], "-"@, n);
    text::joining_separates(seq![y], "-"@, m);
    text::joining_separates(seq![y], "-"@, y);
}

} // verus!
