use vstd::prelude::*;

pub mod horo;

use self::horo::{mood_escape, mood_run, seed_state, Horo, Mood};

verus! {

/// Seconds in a day.
pub const DAY_SECS: u64 = 86400;

/// Seconds in a mean Gregorian year of 365.2425 days.
pub const YEAR_SECS: u64 = 31556952;

/// The twelve astrological signs; each shifts the mood seed by its place
/// in the zodiac and has a glyph in the header.
#[derive(Clone, Copy, Debug, PartialEq, Eq, Structural)]
pub enum Sign {
    Aries,
    Taurus,
    Gemini,
    Cancer,
    Leo,
    Virgo,
    Libra,
    Scorpio,
    Sagittarius,
    Capricorn,
    Aquarius,
    Pisces,
}

/// Place of a sign in the zodiac, from 0 (Aries) to 11 (Pisces).
pub open spec fn sign_index(s: Sign) -> nat {
    match s {
        Sign::Aries => 0,
        Sign::Taurus => 1,
        Sign::Gemini => 2,
        Sign::Cancer => 3,
        Sign::Leo => 4,
        Sign::Virgo => 5,
        Sign::Libra => 6,
        Sign::Scorpio => 7,
        Sign::Sagittarius => 8,
        Sign::Capricorn => 9,
        Sign::Aquarius => 10,
        Sign::Pisces => 11,
    }
}

/// The sign at place `i` of the zodiac (`i < 12`).
pub open spec fn sign_at(i: nat) -> Sign {
    if i == 0 {
        Sign::Aries
    } else if i == 1 {
        Sign::Taurus
    } else if i == 2 {
        Sign::Gemini
    } else if i == 3 {
        Sign::Cancer
    } else if i == 4 {
        Sign::Leo
    } else if i == 5 {
        Sign::Virgo
    } else if i == 6 {
        Sign::Libra
    } else if i == 7 {
        Sign::Scorpio
    } else if i == 8 {
        Sign::Sagittarius
    } else if i == 9 {
        Sign::Capricorn
    } else if i == 10 {
        Sign::Aquarius
    } else {
        Sign::Pisces
    }
}

/// The lowercase name by which a sign is selected.
pub open spec fn sign_name(s: Sign) -> Seq<char> {
    match s {
        Sign::Aries => "aries"@,
        Sign::Taurus => "taurus"@,
        Sign::Gemini => "gemini"@,
        Sign::Cancer => "cancer"@,
        Sign::Leo => "leo"@,
        Sign::Virgo => "virgo"@,
        Sign::Libra => "libra"@,
        Sign::Scorpio => "scorpio"@,
        Sign::Sagittarius => "sagittarius"@,
        Sign::Capricorn => "capricorn"@,
        Sign::Aquarius => "aquarius"@,
        Sign::Pisces => "pisces"@,
    }
}

/// Whether `t` is the name of a sign.
pub open spec fn is_sign_name(t: Seq<char>) -> bool {
    ||| t == "aries"@
    ||| t == "taurus"@
    ||| t == "gemini"@
    ||| t == "cancer"@
    ||| t == "leo"@
    ||| t == "virgo"@
    ||| t == "libra"@
    ||| t == "scorpio"@
    ||| t == "sagittarius"@
    ||| t == "capricorn"@
    ||| t == "aquarius"@
    ||| t == "pisces"@
}

/// The zodiac glyph of a sign (U+2648 to U+2653).
pub open spec fn sign_glyph(s: Sign) -> Seq<char> {
    match s {
        Sign::Aries => "\u{2648}"@,
        Sign::Taurus => "\u{2649}"@,
        Sign::Gemini => "\u{264a}"@,
        Sign::Cancer => "\u{264b}"@,
        Sign::Leo => "\u{264c}"@,
        Sign::Virgo => "\u{264d}"@,
        Sign::Libra => "\u{264e}"@,
        Sign::Scorpio => "\u{264f}"@,
        Sign::Sagittarius => "\u{2650}"@,
        Sign::Capricorn => "\u{2651}"@,
        Sign::Aquarius => "\u{2652}"@,
        Sign::Pisces => "\u{2653}"@,
    }
}

/// The message for a name that is no sign: the name, then every valid one.
pub open spec fn unknown_sign_message(input: Seq<char>) -> Seq<char> {
    "Could not match \""@ + input + "\"\nPossible values:\n    aries\n    taurus\n    gemini\n    cancer\n    leo\n    virgo\n    libra\n    scorpio\n    sagittarius\n    capricorn\n    aquarius\n    pisces"@
}

/// Whether two strings hold the same characters.
fn same_text(a: &str, b: &str) -> (r: bool)
    ensures
        r == (a@ == b@),
{
    let n = a.unicode_len();
    if n != b.unicode_len() {
        return false;
    }
    let mut i: usize = 0;
    while i < n
        invariant
            n == a@.len(),
            n == b@.len(),
            i <= n,
            forall|j: int| 0 <= j < i ==> a@[j] == b@[j],
        decreases n - i,
    {
        if a.get_char(i) != b.get_char(i) {
            return false;
        }
        i = i + 1;
    }
    assert(a@ =~= b@);
    true
}

impl Sign {
    /// Place of the sign in the zodiac.
    pub fn index(&self) -> (r: u8)
        ensures
            r as nat == sign_index(*self),
    {
        match self {
            Sign::Aries => 0,
            Sign::Taurus => 1,
            Sign::Gemini => 2,
            Sign::Cancer => 3,
            Sign::Leo => 4,
            Sign::Virgo => 5,
            Sign::Libra => 6,
            Sign::Scorpio => 7,
            Sign::Sagittarius => 8,
            Sign::Capricorn => 9,
            Sign::Aquarius => 10,
            Sign::Pisces => 11,
        }
    }

    /// The sign at place `i` of the zodiac.
    pub fn at(i: u8) -> (r: Sign)
        requires
            i < 12,
        ensures
            r == sign_at(i as nat),
            sign_index(r) == i,
    {
        if i == 0 {
            Sign::Aries
        } else if i == 1 {
            Sign::Taurus
        } else if i == 2 {
            Sign::Gemini
        } else if i == 3 {
            Sign::Cancer
        } else if i == 4 {
            Sign::Leo
        } else if i == 5 {
            Sign::Virgo
        } else if i == 6 {
            Sign::Libra
        } else if i == 7 {
            Sign::Scorpio
        } else if i == 8 {
            Sign::Sagittarius
        } else if i == 9 {
            Sign::Capricorn
        } else if i == 10 {
            Sign::Aquarius
        } else {
            Sign::Pisces
        }
    }

    /// The name by which the sign is selected.
    pub fn name(&self) -> (r: &'static str)
        ensures
            r@ == sign_name(*self),
    {
        match self {
            Sign::Aries => "aries",
            Sign::Taurus => "taurus",
            Sign::Gemini => "gemini",
            Sign::Cancer => "cancer",
            Sign::Leo => "leo",
            Sign::Virgo => "virgo",
            Sign::Libra => "libra",
            Sign::Scorpio => "scorpio",
            Sign::Sagittarius => "sagittarius",
            Sign::Capricorn => "capricorn",
            Sign::Aquarius => "aquarius",
            Sign::Pisces => "pisces",
        }
    }

    /// The sign's zodiac glyph.
    pub fn glyph(&self) -> (r: &'static str)
        ensures
            r@ == sign_glyph(*self),
    {
        match self {
            Sign::Aries => "\u{2648}",
            Sign::Taurus => "\u{2649}",
            Sign::Gemini => "\u{264a}",
            Sign::Cancer => "\u{264b}",
            Sign::Leo => "\u{264c}",
            Sign::Virgo => "\u{264d}",
            Sign::Libra => "\u{264e}",
            Sign::Scorpio => "\u{264f}",
            Sign::Sagittarius => "\u{2650}",
            Sign::Capricorn => "\u{2651}",
            Sign::Aquarius => "\u{2652}",
            Sign::Pisces => "\u{2653}",
        }
    }

    /// Selects the sign with the given lowercase name. Any other input is
    /// refused with a message that quotes it and lists every valid name.
    pub fn from_string(input: String) -> (r: Result<Sign, String>)
        ensures
            is_sign_name(input@) <==> r is Ok,
            r matches Ok(s) ==> sign_name(s) == input@,
            r matches Err(e) ==> e@ == unknown_sign_message(input@),
    {
        let mut i: u8 = 0;
        while i < 12
            invariant
                i <= 12,
                forall|j: nat| j < i ==> sign_name(#[trigger] sign_at(j)) != input@,
            decreases 12 - i,
        {
            let s = Sign::at(i);
            if same_text(input.as_str(), s.name()) {
                return Ok(s);
            }
            i = i + 1;
        }
        assert(!is_sign_name(input@)) by {
            assert(sign_name(sign_at(0)) != input@);
            assert(sign_name(sign_at(1)) != input@);
            assert(sign_name(sign_at(2)) != input@);
            assert(sign_name(sign_at(3)) != input@);
            assert(sign_name(sign_at(4)) != input@);
            assert(sign_name(sign_at(5)) != input@);
            assert(sign_name(sign_at(6)) != input@);
            assert(sign_name(sign_at(7)) != input@);
            assert(sign_name(sign_at(8)) != input@);
            assert(sign_name(sign_at(9)) != input@);
            assert(sign_name(sign_at(10)) != input@);
            assert(sign_name(sign_at(11)) != input@);
        }
        let mut msg = String::from_str("Could not match \"");
        msg.append(input.as_str());
        msg.append(
            "\"\nPossible values:\n    aries\n    taurus\n    gemini\n    cancer\n    leo\n    virgo\n    libra\n    scorpio\n    sagittarius\n    capricorn\n    aquarius\n    pisces",
        );
        Err(msg)
    }
}

/// The Gregorian rule: every fourth year, but not centuries, except every
/// fourth century.
pub open spec fn leap_year(year: int) -> bool {
    year % 4 == 0 && (year % 100 != 0 || year % 400 == 0)
}

/// Days in a year.
pub open spec fn year_days(leap: bool) -> nat {
    if leap {
        366
    } else {
        365
    }
}

/// Days in month `m` (0 is January); beyond December, a whole leap year.
pub open spec fn month_days(m: int, leap: bool) -> nat {
    if m == 1 {
        if leap {
            29
        } else {
            28
        }
    } else if m == 3 || m == 5 || m == 8 || m == 10 {
        30
    } else if 0 <= m < 12 {
        31
    } else {
        366
    }
}

/// Days in the months before month `m`.
pub open spec fn days_before(m: nat, leap: bool) -> nat
    decreases m,
{
    if m == 0 {
        0
    } else {
        days_before((m - 1) as nat, leap) + month_days(m - 1, leap)
    }
}

/// Whether `year` is a Gregorian leap year.
pub fn is_leap(year: u16) -> (r: bool)
    ensures
        r == leap_year(year as int),
{
    if year % 4 != 0 {
        return false;
    }
    if year % 100 != 0 {
        return true;
    }
    if year % 400 != 0 {
        return false;
    }
    true
}

/// Days in month `month` (0 is January) of a leap or common year.
pub fn month_length(month: u8, leap: bool) -> (r: u16)
    ensures
        r as nat == month_days(month as int, leap),
{
    let february: u16 = if leap {
        29
    } else {
        28
    };
    match month {
        0 | 2 | 4 | 6 | 7 | 9 | 11 => 31,
        3 | 5 | 8 | 10 => 30,
        1 => february,
        _ => 366,
    }
}

/// The twelve months fill the year exactly.
pub proof fn lemma_months_fill_year(leap: bool)
    ensures
        days_before(12, leap) == year_days(leap),
{
    reveal_with_fuel(days_before, 13);
}

/// Month starts only grow through the year.
pub proof fn lemma_days_before_monotone(a: nat, b: nat, leap: bool)
    requires
        a <= b,
    ensures
        days_before(a, leap) <= days_before(b, leap),
    decreases b - a,
{
    if a < b {
        lemma_days_before_monotone(a, (b - 1) as nat, leap);
    }
}

/// The month that holds day `day` of the year, searching from month `m`.
pub open spec fn month_from(m: nat, day: int, leap: bool) -> nat
    decreases 12 - m,
{
    if m >= 11 || day < days_before(m + 1, leap) {
        m
    } else {
        month_from(m + 1, day, leap)
    }
}

/// The month (0 is January) that holds day `day` (0-based) of the year.
pub open spec fn month_of_day(day: int, leap: bool) -> nat {
    month_from(0, day, leap)
}

proof fn lemma_month_from_brackets(m: nat, day: int, leap: bool)
    requires
        m <= 11,
        days_before(m, leap) <= day < year_days(leap),
    ensures
        month_from(m, day, leap) < 12,
        days_before(month_from(m, day, leap), leap) <= day,
        day < days_before(month_from(m, day, leap) + 1, leap),
    decreases 12 - m,
{
    lemma_months_fill_year(leap);
    if m < 11 && day >= days_before(m + 1, leap) {
        lemma_month_from_brackets(m + 1, day, leap);
    }
}

/// A day of the year lies in its month: the month starts on or before it,
/// and the next month starts after it.
pub proof fn lemma_month_of_day(day: int, leap: bool)
    requires
        0 <= day < year_days(leap),
    ensures
        month_of_day(day, leap) < 12,
        days_before(month_of_day(day, leap), leap) <= day,
        day < days_before(month_of_day(day, leap) + 1, leap),
{
    lemma_month_from_brackets(0, day, leap);
}

/// The current month and the day offset agree with today: today lies
/// `today - offset` days into the current month, and that is less than the
/// month's length.
pub proof fn lemma_offset_locates_today(y: YearModel)
    requires
        y.wf(),
    ensures
        y.month() < 12,
        y.offset() <= y.today,
        y.today < y.offset() + month_days(y.month() as int, y.leap()),
{
    lemma_month_of_day(y.today as int, y.leap());
}

/// The AD year of a Unix timestamp, by mean year length (kept in 16 bits).
pub open spec fn year_of(ts: u64) -> u16 {
    (ts / YEAR_SECS + 1970) as u16
}

/// The 0-based day of the year of a timestamp, by mean year length. This is
/// an approximation that drifts from the true calendar day; the few hours by
/// which a mean year outlasts a common one fall on its last day.
pub open spec fn day_of(ts: u64) -> nat {
    let raw = (ts % YEAR_SECS / DAY_SECS) as nat;
    let last = (year_days(leap_year(year_of(ts) as int)) - 1) as nat;
    if raw <= last {
        raw
    } else {
        last
    }
}

/// The weekday (0 is Sunday) on which year `ad` starts, by the same mean
/// year approximation.
pub open spec fn start_weekday(ad: u16) -> nat {
    ((ad as int * YEAR_SECS as int) / DAY_SECS as int % 7) as nat
}

/// The seed of the mood stream of year `ad` under `sign`.
pub open spec fn year_seed(ad: u16, sign: Sign) -> u64 {
    (ad + sign_index(sign)) as u64
}

/// What a calendar year holds.
pub struct YearModel {
    pub ad: u16,
    pub today: u16,
    pub weekd: u8,
    pub days: Seq<Mood>,
    pub sign: Sign,
}

/// One calendar year: its number, today's place in it, the weekday it
/// starts on, the mood of each day and the sign that seeded the moods.
pub struct Year {
    ad: u16,
    today: u16,
    weekd: u8,
    days: Vec<Mood>,
    sign: Sign,
}

impl View for Year {
    type V = YearModel;

    closed spec fn view(&self) -> YearModel {
        YearModel {
            ad: self.ad,
            today: self.today,
            weekd: self.weekd,
            days: self.days@,
            sign: self.sign,
        }
    }
}

impl YearModel {
    /// Whether the year is a leap year.
    pub open spec fn leap(self) -> bool {
        leap_year(self.ad as int)
    }

    /// One mood per day of the year; today is a day of it; a weekday is 0..7.
    pub open spec fn wf(self) -> bool {
        &&& self.days.len() == year_days(self.leap())
        &&& self.today < self.days.len()
        &&& self.weekd < 7
    }

    /// The month that holds today.
    pub open spec fn month(self) -> nat {
        month_of_day(self.today as int, self.leap())
    }

    /// The 0-based day of the year on which the current month starts.
    pub open spec fn offset(self) -> nat {
        days_before(self.month(), self.leap())
    }
}

impl Year {
    /// The calendar year of a Unix timestamp, with the moods of all its days
    /// drawn from a stream seeded by the year number plus the sign's place.
    pub fn new(unix_timestamp: u64, sign: Sign) -> (r: Year)
        ensures
            r@.wf(),
            r@.ad == year_of(unix_timestamp),
            r@.today as nat == day_of(unix_timestamp),
            r@.weekd as nat == start_weekday(r@.ad),
            r@.sign == sign,
            r@.days == mood_run(seed_state(year_seed(r@.ad, sign)), r@.days.len()),
    {
        let ad = #[verifier::truncate] ((unix_timestamp / YEAR_SECS + 1970) as u16);
        let raw: u64 = unix_timestamp % YEAR_SECS / DAY_SECS;
        let length: u16 = if is_leap(ad) {
            366
        } else {
            365
        };
        let today: u16 = if raw < length as u64 {
            raw as u16
        } else {
            length - 1
        };
        let weekd = (ad as u64 * YEAR_SECS / DAY_SECS % 7) as u8;
        let mut rng = Horo::new(ad as u64 + sign.index() as u64);
        let days = rng.draw(length as usize);
        Year { ad, today, weekd, days, sign }
    }

    /// The AD year.
    pub fn ad(&self) -> (r: u16)
        ensures
            r == self@.ad,
    {
        self.ad
    }

    /// Today's 0-based day of the year.
    pub fn today(&self) -> (r: u16)
        ensures
            r == self@.today,
    {
        self.today
    }

    /// The weekday (0 is Sunday) on which the year starts.
    pub fn weekday(&self) -> (r: u8)
        ensures
            r == self@.weekd,
    {
        self.weekd
    }

    /// The sign that seeded the moods.
    pub fn sign(&self) -> (r: Sign)
        ensures
            r == self@.sign,
    {
        self.sign
    }

    /// The mood of each day of the year, in order.
    pub fn moods(&self) -> (r: &Vec<Mood>)
        ensures
            r@ == self@.days,
    {
        &self.days
    }

    /// The month (0 is January) that holds today.
    pub fn current_month(&self) -> (r: u8)
        requires
            self@.wf(),
        ensures
            r as nat == self@.month(),
            r < 12,
    {
        let leap = is_leap(self.ad);
        proof {
            lemma_months_fill_year(leap);
        }
        let mut month: u8 = 0;
        let mut countdown: u16 = self.today;
        let mut length: u16 = month_length(0, leap);
        while countdown >= length
            invariant
                leap == self@.leap(),
                self@.wf(),
                month <= 11,
                days_before(12, leap) == year_days(leap),
                countdown as int == self.today - days_before(month as nat, leap),
                length == month_days(month as int, leap),
                month_from(month as nat, self.today as int, leap) == self@.month(),
            decreases 12 - month,
        {
            proof {
                assert(days_before(month as nat + 1, leap) == days_before(month as nat, leap)
                    + month_days(month as int, leap));
            }
            countdown = countdown - length;
            month = month + 1;
            length = month_length(month, leap);
        }
        month
    }

    /// The 0-based day of the year on which the current month starts.
    pub fn day_offset(&self) -> (r: u16)
        requires
            self@.wf(),
        ensures
            r as nat == self@.offset(),
            r <= self@.today,
            self@.today < r + month_days(self@.month() as int, self@.leap()),
    {
        let leap = is_leap(self.ad);
        let current = self.current_month();
        proof {
            lemma_month_of_day(self.today as int, leap);
            lemma_months_fill_year(leap);
        }
        let mut month: u8 = 0;
        let mut count: u16 = 0;
        while month < current
            invariant
                leap == self@.leap(),
                current as nat == self@.month(),
                current < 12,
                month <= current,
                count as nat == days_before(month as nat, leap),
                days_before(current as nat, leap) <= self.today,
            decreases current - month,
        {
            proof {
                lemma_days_before_monotone(month as nat + 1, current as nat, leap);
            }
            let length = month_length(month, leap);
            month = month + 1;
            count = count + length;
        }
        count
    }
}

/// Width of the header line, in characters.
pub const HEADER_WIDTH: usize = 20;

/// English name of month `m` (0 is January).
pub open spec fn month_name(m: nat) -> Seq<char> {
    if m == 0 {
        "January"@
    } else if m == 1 {
        "February"@
    } else if m == 2 {
        "March"@
    } else if m == 3 {
        "April"@
    } else if m == 4 {
        "May"@
    } else if m == 5 {
        "June"@
    } else if m == 6 {
        "July"@
    } else if m == 7 {
        "August"@
    } else if m == 8 {
        "September"@
    } else if m == 9 {
        "October"@
    } else if m == 10 {
        "November"@
    } else {
        "December"@
    }
}

/// The decimal digit `d`.
pub open spec fn digit_text(d: nat) -> Seq<char> {
    if d == 0 {
        "0"@
    } else if d == 1 {
        "1"@
    } else if d == 2 {
        "2"@
    } else if d == 3 {
        "3"@
    } else if d == 4 {
        "4"@
    } else if d == 5 {
        "5"@
    } else if d == 6 {
        "6"@
    } else if d == 7 {
        "7"@
    } else if d == 8 {
        "8"@
    } else {
        "9"@
    }
}

/// `n` in decimal, without leading zeros.
pub open spec fn decimal(n: nat) -> Seq<char>
    decreases n,
{
    if n < 10 {
        digit_text(n)
    } else {
        decimal(n / 10) + digit_text(n % 10)
    }
}

/// `n` in decimal, right-aligned in two columns.
pub open spec fn two_columns(n: nat) -> Seq<char> {
    if n < 10 {
        " "@ + digit_text(n)
    } else {
        decimal(n)
    }
}

/// `t` written `n` times.
pub open spec fn repeat(t: Seq<char>, n: nat) -> Seq<char>
    decreases n,
{
    if n == 0 {
        Seq::empty()
    } else {
        repeat(t, (n - 1) as nat) + t
    }
}

/// `s` centred in `width` columns; the odd space, if any, goes right.
pub open spec fn centered(s: Seq<char>, width: nat) -> Seq<char> {
    if s.len() >= width {
        s
    } else {
        let pad = (width - s.len()) as nat;
        repeat(" "@, pad / 2) + s + repeat(" "@, (pad - pad / 2) as nat)
    }
}

/// Sign glyph, month name and year number.
pub open spec fn header_text(y: YearModel) -> Seq<char> {
    sign_glyph(y.sign) + month_name(y.month()) + " "@ + decimal(y.ad as nat)
}

/// How many blank cells precede the 1st of the current month in its week.
pub open spec fn lead_cells(y: YearModel) -> nat {
    (y.offset() + y.weekd as nat) % 7
}

/// The cell of day `d` (0-based) of the current month: its mood colour,
/// the reverse-video marker if it is today, the day number in two columns,
/// a reset and a space; and a line break where a week ends.
pub open spec fn cell_text(y: YearModel, d: nat) -> Seq<char> {
    let idx = y.offset() + d;
    mood_escape(y.days[idx as int]) + (if idx == y.today {
        "\u{1b}[7m"@
    } else {
        ""@
    }) + two_columns(d + 1) + "\u{1b}[0m "@ + (if (lead_cells(y) + d + 1) % 7 == 0 {
        "\n"@
    } else {
        ""@
    })
}

/// The cells of the first `n` days of the current month.
pub open spec fn cells_text(y: YearModel, n: nat) -> Seq<char>
    decreases n,
{
    if n == 0 {
        Seq::empty()
    } else {
        cells_text(y, (n - 1) as nat) + cell_text(y, (n - 1) as nat)
    }
}

proof fn lemma_next_weekday(x: nat, w: nat)
    requires
        w == x % 7,
    ensures
        (w + 1) % 7 == (x + 1) % 7,
{
    assert((w + 1) % 7 == (x + 1) % 7) by (nonlinear_arith)
        requires
            w == x % 7,
    ;
}

proof fn lemma_cells_step(y: YearModel, prefix: Seq<char>, d: nat)
    ensures
        prefix + cells_text(y, d) + cell_text(y, d) == prefix + cells_text(y, d + 1),
{
    assert(prefix + cells_text(y, d) + cell_text(y, d) =~= prefix + cells_text(y, d + 1));
}

/// The current month as text: the centred header, the weekday names, blank
/// cells up to the 1st, and one cell per day of the month.
pub open spec fn render_text(y: YearModel) -> Seq<char> {
    centered(header_text(y), HEADER_WIDTH as nat) + "\n"@ + "Su Mo Tu We Th Fr Sa\n"@ + repeat(
        "   "@,
        lead_cells(y),
    ) + cells_text(y, month_days(y.month() as int, y.leap()))
}

/// English name of month `month` (0 is January).
pub fn month_title(month: u8) -> (r: &'static str)
    ensures
        r@ == month_name(month as nat),
{
    if month == 0 {
        "January"
    } else if month == 1 {
        "February"
    } else if month == 2 {
        "March"
    } else if month == 3 {
        "April"
    } else if month == 4 {
        "May"
    } else if month == 5 {
        "June"
    } else if month == 6 {
        "July"
    } else if month == 7 {
        "August"
    } else if month == 8 {
        "September"
    } else if month == 9 {
        "October"
    } else if month == 10 {
        "November"
    } else {
        "December"
    }
}

fn digit(d: u16) -> (r: &'static str)
    ensures
        r@ == digit_text(d as nat),
{
    if d == 0 {
        "0"
    } else if d == 1 {
        "1"
    } else if d == 2 {
        "2"
    } else if d == 3 {
        "3"
    } else if d == 4 {
        "4"
    } else if d == 5 {
        "5"
    } else if d == 6 {
        "6"
    } else if d == 7 {
        "7"
    } else if d == 8 {
        "8"
    } else {
        "9"
    }
}

/// Appends `n` in decimal.
fn push_decimal(out: &mut String, n: u16)
    ensures
        final(out)@ == old(out)@ + decimal(n as nat),
    decreases n,
{
    if n < 10 {
        out.append(digit(n));
    } else {
        push_decimal(out, n / 10);
        out.append(digit(n % 10));
        assert(final(out)@ =~= old(out)@ + decimal(n as nat));
    }
}

/// Appends `t` `n` times.
fn push_repeat(out: &mut String, t: &str, n: usize)
    ensures
        final(out)@ == old(out)@ + repeat(t@, n as nat),
{
    let ghost start = out@;
    let mut i: usize = 0;
    while i < n
        invariant
            i <= n,
            out@ == start + repeat(t@, i as nat),
        decreases n - i,
    {
        out.append(t);
        i = i + 1;
        assert(out@ =~= start + repeat(t@, i as nat));
    }
    assert(out@ =~= start + repeat(t@, n as nat));
}

/// Appends `s` centred in `width` columns.
fn push_centered(out: &mut String, s: &str, width: usize)
    ensures
        final(out)@ == old(out)@ + centered(s@, width as nat),
{
    let len = s.unicode_len();
    if len >= width {
        out.append(s);
    } else {
        let pad = width - len;
        push_repeat(out, " ", pad / 2);
        out.append(s);
        push_repeat(out, " ", pad - pad / 2);
        assert(final(out)@ =~= old(out)@ + centered(s@, width as nat));
    }
}

impl Year {
    /// Appends the cell of day `d` (0-based) of the current month.
    fn push_cell(&self, out: &mut String, d: u16, offset: u16, weekday: u8)
        requires
            self@.wf(),
            offset as nat == self@.offset(),
            offset + d < self@.days.len(),
            weekday as nat == (lead_cells(self@) + d) % 7,
            d < 31,
        ensures
            final(out)@ == old(out)@ + cell_text(self@, d as nat),
    {
        let idx = offset + d;
        let mood = self.days[idx as usize];
        out.append(mood.escape());
        if idx == self.today {
            out.append("\u{1b}[7m");
        } else {
            out.append("");
        }
        if d + 1 < 10 {
            out.append(" ");
            out.append(digit(d + 1));
        } else {
            push_decimal(out, d + 1);
            assert(decimal((d + 1) as nat) == two_columns((d + 1) as nat));
        }
        out.append("\u{1b}[0m ");
        if (weekday + 1) % 7 == 0 {
            out.append("\n");
        } else {
            out.append("");
        }
        assert(final(out)@ =~= old(out)@ + cell_text(self@, d as nat));
    }

    /// The current month as text: a centred header with the sign's glyph,
    /// the month's name and the year; the weekday names from Sunday; then
    /// the days in rows of seven, each coloured by its mood, today in
    /// reverse video, and a line break after each complete week.
    #[verifier::rlimit(40)]
    pub fn render(&self) -> (r: String)
        requires
            self@.wf(),
        ensures
            r@ == render_text(self@),
    {
        let leap = is_leap(self.ad);
        let month = self.current_month();
        let offset = self.day_offset();
        proof {
            lemma_month_of_day(self.today as int, leap);
            lemma_months_fill_year(leap);
            lemma_days_before_monotone(month as nat + 1, 12, leap);
        }
        let mut header = String::new();
        header.append(self.sign.glyph());
        header.append(month_title(month));
        header.append(" ");
        push_decimal(&mut header, self.ad);
        assert(header@ =~= header_text(self@));
        let mut out = String::new();
        push_centered(&mut out, header.as_str(), HEADER_WIDTH);
        out.append("\n");
        out.append("Su Mo Tu We Th Fr Sa\n");
        let lead: u8 = ((offset as u32 + self.weekd as u32) % 7) as u8;
        push_repeat(&mut out, "   ", lead as usize);
        let ghost prefix = out@;
        let length = month_length(month, leap);
        let mut weekday: u8 = lead;
        let mut d: u16 = 0;
        while d < length
            invariant
                self@.wf(),
                leap == self@.leap(),
                month as nat == self@.month(),
                offset as nat == self@.offset(),
                length == month_days(month as int, leap),
                length <= 31,
                offset + length <= self@.days.len(),
                d <= length,
                weekday as nat == (lead_cells(self@) + d) % 7,
                out@ == prefix + cells_text(self@, d as nat),
            decreases length - d,
        {
            self.push_cell(&mut out, d, offset, weekday);
            proof {
                lemma_cells_step(self@, prefix, d as nat);
                lemma_next_weekday(lead_cells(self@) + d as nat, weekday as nat);
            }
            weekday = (weekday + 1) % 7;
            d = d + 1;
        }
        assert(out@ =~= render_text(self@));
        out
    }
}

} // verus!
