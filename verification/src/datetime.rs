//! Calendar dates with a time of day, as a wall clock shows them, and the
//! ranges that a date literal of a query stands for.
use crate::text::{
    chars_of, decimal, digit_char, digit_value, is_digit, is_digit_char, padded, push_padded,
    string_of, zeros,
};
use vstd::prelude::*;

verus! {

/// A moment as a wall clock and a calendar show it.
#[derive(Clone, Copy, Debug, PartialEq, Eq, Structural)]
pub struct DateTime {
    pub year: u32,
    pub month: u32,
    pub day: u32,
    pub hour: u32,
    pub minute: u32,
    pub second: u32,
}

pub open spec fn is_leap_year(year: nat) -> bool {
    (year % 4 == 0 && year % 100 != 0) || year % 400 == 0
}

/// The number of days of a month of the Gregorian calendar; 0 where `month`
/// is no month.
pub open spec fn days_in_month(year: nat, month: nat) -> nat {
    if month == 2 {
        if is_leap_year(year) {
            29
        } else {
            28
        }
    } else if month == 4 || month == 6 || month == 9 || month == 11 {
        30
    } else if 1 <= month <= 12 {
        31
    } else {
        0
    }
}

/// The first second of a day.
pub open spec fn day_start(year: nat, month: nat, day: nat) -> DateTime {
    DateTime {
        year: year as u32,
        month: month as u32,
        day: day as u32,
        hour: 0,
        minute: 0,
        second: 0,
    }
}

/// The last second of a day.
pub open spec fn day_end(year: nat, month: nat, day: nat) -> DateTime {
    DateTime {
        year: year as u32,
        month: month as u32,
        day: day as u32,
        hour: 23,
        minute: 59,
        second: 59,
    }
}

/// Whether the `n` characters of `s` from `i` on are digits.
pub open spec fn digits_at(s: Seq<char>, i: int, n: int) -> bool {
    forall|k: int| i <= k < i + n ==> is_digit(#[trigger] s[k])
}

/// The number written by the two digits of `s` at `i`.
pub open spec fn number2(s: Seq<char>, i: int) -> nat {
    digit_value(s[i]) * 10 + digit_value(s[i + 1])
}

/// The number written by the four digits of `s` at `i`.
pub open spec fn number4(s: Seq<char>, i: int) -> nat {
    number2(s, i) * 100 + number2(s, i + 2)
}

/// `s` begins with a year and a month, as in `2020-03`.
pub open spec fn has_month(s: Seq<char>) -> bool {
    &&& s.len() >= 7
    &&& digits_at(s, 0, 4)
    &&& s[4] == '-'
    &&& digits_at(s, 5, 2)
    &&& 1 <= number2(s, 5) <= 12
}

/// `s` begins with a date, as in `2020-03-09`.
pub open spec fn has_day(s: Seq<char>) -> bool {
    &&& s.len() >= 10
    &&& has_month(s)
    &&& s[7] == '-'
    &&& digits_at(s, 8, 2)
    &&& 1 <= number2(s, 8) <= days_in_month(number4(s, 0), number2(s, 5))
}

/// `s` is a date and a time of day, as in `2020-03-09 18:30:00`.
pub open spec fn has_time(s: Seq<char>) -> bool {
    &&& s.len() == 19
    &&& has_day(s)
    &&& s[10] == ' '
    &&& digits_at(s, 11, 2)
    &&& s[13] == ':'
    &&& digits_at(s, 14, 2)
    &&& s[16] == ':'
    &&& digits_at(s, 17, 2)
    &&& number2(s, 11) < 24
    &&& number2(s, 14) < 60
    &&& number2(s, 17) < 60
}

/// The range of moments that a date literal stands for: a year, a month
/// or a day from its first second to its last, a full date and time that
/// one moment alone. `None` for anything else.
pub open spec fn literal_range(s: Seq<char>) -> Option<(DateTime, DateTime)> {
    if s.len() == 4 && digits_at(s, 0, 4) {
        Some((day_start(number4(s, 0), 1, 1), day_end(number4(s, 0), 12, 31)))
    } else if s.len() == 7 && has_month(s) {
        let y = number4(s, 0);
        let m = number2(s, 5);
        Some((day_start(y, m, 1), day_end(y, m, days_in_month(y, m))))
    } else if s.len() == 10 && has_day(s) {
        let y = number4(s, 0);
        let m = number2(s, 5);
        let d = number2(s, 8);
        Some((day_start(y, m, d), day_end(y, m, d)))
    } else if has_time(s) {
        let t = DateTime {
            year: number4(s, 0) as u32,
            month: number2(s, 5) as u32,
            day: number2(s, 8) as u32,
            hour: number2(s, 11) as u32,
            minute: number2(s, 14) as u32,
            second: number2(s, 17) as u32,
        };
        Some((t, t))
    } else {
        None
    }
}

impl DateTime {
    /// A date of the calendar and a time of the clock, in a year of four
    /// digits at most.
    pub open spec fn valid(self) -> bool {
        &&& self.year <= 9999
        &&& 1 <= self.month <= 12
        &&& 1 <= self.day <= days_in_month(self.year as nat, self.month as nat)
        &&& self.hour < 24
        &&& self.minute < 60
        &&& self.second < 60
    }

    /// `self` is earlier than `other`.
    pub open spec fn before(self, other: DateTime) -> bool {
        if self.year != other.year {
            self.year < other.year
        } else if self.month != other.month {
            self.month < other.month
        } else if self.day != other.day {
            self.day < other.day
        } else if self.hour != other.hour {
            self.hour < other.hour
        } else if self.minute != other.minute {
            self.minute < other.minute
        } else {
            self.second < other.second
        }
    }

    /// `self` is not later than `other`.
    pub open spec fn at_most(self, other: DateTime) -> bool {
        !other.before(self)
    }

    /// The form `2020-03-09 18:30:00`: the year in four digits at least,
    /// every other part in two at least.
    pub open spec fn text(self) -> Seq<char> {
        padded(self.year as nat, 4) + seq!['-'] + padded(self.month as nat, 2) + seq!['-']
            + padded(self.day as nat, 2) + seq![' '] + padded(self.hour as nat, 2) + seq![':']
            + padded(self.minute as nat, 2) + seq![':'] + padded(self.second as nat, 2)
    }

    /// The moment with these parts, if there is one.
    pub fn new(year: u32, month: u32, day: u32, hour: u32, minute: u32, second: u32) -> (r:
        Option<DateTime>)
        ensures
            ({
                let t = DateTime { year, month, day, hour, minute, second };
                r == if t.valid() {
                    Some(t)
                } else {
                    None::<DateTime>
                }
            }),
    {
        let t = DateTime { year, month, day, hour, minute, second };
        if t.is_valid() {
            Some(t)
        } else {
            None
        }
    }

    pub fn is_valid(&self) -> (b: bool)
        ensures
            b == self.valid(),
    {
        self.year <= 9999 && 1 <= self.month && self.month <= 12 && 1 <= self.day && self.day
            <= month_length(self.year, self.month) && self.hour < 24 && self.minute < 60
            && self.second < 60
    }

    pub fn is_before(&self, other: &DateTime) -> (b: bool)
        ensures
            b == self.before(*other),
    {
        if self.year != other.year {
            self.year < other.year
        } else if self.month != other.month {
            self.month < other.month
        } else if self.day != other.day {
            self.day < other.day
        } else if self.hour != other.hour {
            self.hour < other.hour
        } else if self.minute != other.minute {
            self.minute < other.minute
        } else {
            self.second < other.second
        }
    }

    pub fn is_at_most(&self, other: &DateTime) -> (b: bool)
        ensures
            b == self.at_most(*other),
    {
        !other.is_before(self)
    }

    /// Writes the moment as `2020-03-09 18:30:00`.
    pub fn format(&self) -> (s: String)
        ensures
            s@ == self.text(),
    {
        let mut v: Vec<char> = Vec::new();
        push_padded(&mut v, self.year, 4);
        v.push('-');
        push_padded(&mut v, self.month, 2);
        v.push('-');
        push_padded(&mut v, self.day, 2);
        v.push(' ');
        push_padded(&mut v, self.hour, 2);
        v.push(':');
        push_padded(&mut v, self.minute, 2);
        v.push(':');
        push_padded(&mut v, self.second, 2);
        assert(v@ =~= self.text());
        string_of(&v)
    }
}

pub fn leap_year(year: u32) -> (b: bool)
    ensures
        b == is_leap_year(year as nat),
{
    (year % 4 == 0 && year % 100 != 0) || year % 400 == 0
}

pub fn month_length(year: u32, month: u32) -> (n: u32)
    ensures
        n == days_in_month(year as nat, month as nat),
{
    if month == 2 {
        if leap_year(year) {
            29
        } else {
            28
        }
    } else if month == 4 || month == 6 || month == 9 || month == 11 {
        30
    } else if 1 <= month && month <= 12 {
        31
    } else {
        0
    }
}

fn all_digits_at(s: &Vec<char>, i: usize, n: usize) -> (b: bool)
    requires
        i + n <= s.len(),
    ensures
        b == digits_at(s@, i as int, n as int),
{
    let mut k: usize = 0;
    while k < n
        invariant
            k <= n,
            i + n <= s.len(),
            digits_at(s@, i as int, k as int),
        decreases n - k,
    {
        if !is_digit_char(s[i + k]) {
            return false;
        }
        k += 1;
    }
    true
}

fn read2(s: &Vec<char>, i: usize) -> (n: u32)
    requires
        i + 2 <= s.len(),
        digits_at(s@, i as int, 2),
    ensures
        n == number2(s@, i as int),
        n < 100,
{
    assert(is_digit(s@[i as int]) && is_digit(s@[i + 1]));
    (s[i] as u32 - 48) * 10 + (s[i + 1] as u32 - 48)
}

fn read4(s: &Vec<char>, i: usize) -> (n: u32)
    requires
        i + 4 <= s.len(),
        digits_at(s@, i as int, 4),
    ensures
        n == number4(s@, i as int),
        n < 10000,
{
    assert(is_digit(s@[i as int]) && is_digit(s@[i + 1]) && is_digit(s@[i + 2]) && is_digit(
        s@[i + 3],
    ));
    read2(s, i) * 100 + read2(s, i + 2)
}

fn month_at(s: &Vec<char>) -> (r: Option<(u32, u32)>)
    ensures
        r.is_some() == has_month(s@),
        r.is_some() ==> r.unwrap() == (number4(s@, 0) as u32, number2(s@, 5) as u32),
        r.is_some() ==> r.unwrap().0 < 10000 && 1 <= r.unwrap().1 <= 12,
{
    if s.len() >= 7 && all_digits_at(s, 0, 4) && s[4] == '-' && all_digits_at(s, 5, 2) {
        let y = read4(s, 0);
        let m = read2(s, 5);
        if 1 <= m && m <= 12 {
            return Some((y, m));
        }
    }
    None
}

fn day_at(s: &Vec<char>) -> (r: Option<(u32, u32, u32)>)
    ensures
        r.is_some() == has_day(s@),
        r.is_some() ==> r.unwrap() == (
            number4(s@, 0) as u32,
            number2(s@, 5) as u32,
            number2(s@, 8) as u32,
        ),
        r.is_some() ==> (DateTime {
            year: r.unwrap().0,
            month: r.unwrap().1,
            day: r.unwrap().2,
            hour: 0,
            minute: 0,
            second: 0,
        }).valid(),
{
    if s.len() >= 10 {
        if let Some((y, m)) = month_at(s) {
            if s[7] == '-' && all_digits_at(s, 8, 2) {
                let d = read2(s, 8);
                if 1 <= d && d <= month_length(y, m) {
                    return Some((y, m, d));
                }
            }
        }
    }
    None
}

/// Reads a date literal: `2020`, `2020-03`, `2020-03-09` or
/// `2020-03-09 18:30:00`. The result is the range of moments that the
/// literal covers.
pub fn parse_datetime(s: &str) -> (r: Option<(DateTime, DateTime)>)
    ensures
        r == literal_range(s@),
        r.is_some() ==> r.unwrap().0.valid() && r.unwrap().1.valid() && r.unwrap().0.at_most(
            r.unwrap().1,
        ),
{
    let v = chars_of(s);
    let n = v.len();
    if n == 4 {
        if all_digits_at(&v, 0, 4) {
            let y = read4(&v, 0);
            return Some(
                (
                    DateTime { year: y, month: 1, day: 1, hour: 0, minute: 0, second: 0 },
                    DateTime { year: y, month: 12, day: 31, hour: 23, minute: 59, second: 59 },
                ),
            );
        }
        None
    } else if n == 7 {
        match month_at(&v) {
            Some((y, m)) => Some(
                (
                    DateTime { year: y, month: m, day: 1, hour: 0, minute: 0, second: 0 },
                    DateTime {
                        year: y,
                        month: m,
                        day: month_length(y, m),
                        hour: 23,
                        minute: 59,
                        second: 59,
                    },
                ),
            ),
            None => None,
        }
    } else if n == 10 {
        match day_at(&v) {
            Some((y, m, d)) => Some(
                (
                    DateTime { year: y, month: m, day: d, hour: 0, minute: 0, second: 0 },
                    DateTime { year: y, month: m, day: d, hour: 23, minute: 59, second: 59 },
                ),
            ),
            None => None,
        }
    } else if n == 19 {
        match day_at(&v) {
            Some((y, m, d)) => {
                if v[10] == ' ' && all_digits_at(&v, 11, 2) && v[13] == ':' && all_digits_at(
                    &v,
                    14,
                    2,
                ) && v[16] == ':' && all_digits_at(&v, 17, 2) {
                    let h = read2(&v, 11);
                    let mi = read2(&v, 14);
                    let se = read2(&v, 17);
                    if h < 24 && mi < 60 && se < 60 {
                        let t = DateTime {
                            year: y,
                            month: m,
                            day: d,
                            hour: h,
                            minute: mi,
                            second: se,
                        };
                        return Some((t, t));
                    }
                }
                None
            },
            None => None,
        }
    } else {
        None
    }
}

/// A number below 100 in two digits.
pub proof fn lemma_padded_two(n: nat)
    requires
        n < 100,
    ensures
        padded(n, 2) == seq![digit_char(n / 10), digit_char(n % 10)],
{
    reveal_with_fuel(decimal, 3);
    if n < 10 {
        assert(zeros(1) =~= seq!['0']);
        assert(padded(n, 2) =~= seq![digit_char(0), digit_char(n)]);
    } else {
        assert(decimal(n) =~= seq![digit_char(n / 10), digit_char(n % 10)]);
    }
}

/// A number below 10000 in four digits.
pub proof fn lemma_padded_four(n: nat)
    requires
        n < 10000,
    ensures
        padded(n, 4) == seq![
            digit_char(n / 1000),
            digit_char((n / 100) % 10),
            digit_char((n / 10) % 10),
            digit_char(n % 10),
        ],
{
    reveal_with_fuel(decimal, 5);
    let want = seq![
        digit_char(n / 1000),
        digit_char((n / 100) % 10),
        digit_char((n / 10) % 10),
        digit_char(n % 10),
    ];
    if n < 10 {
        assert(zeros(3) =~= seq!['0', '0', '0']);
        assert(padded(n, 4) =~= want);
    } else if n < 100 {
        assert(zeros(2) =~= seq!['0', '0']);
        assert(decimal(n) =~= seq![digit_char(n / 10), digit_char(n % 10)]);
        assert(padded(n, 4) =~= want);
    } else if n < 1000 {
        assert(zeros(1) =~= seq!['0']);
        assert(decimal(n / 10) =~= seq![digit_char(n / 100), digit_char((n / 10) % 10)]);
        assert(decimal(n) =~= seq![
            digit_char(n / 100),
            digit_char((n / 10) % 10),
            digit_char(n % 10),
        ]);
        assert(padded(n, 4) =~= want);
    } else {
        assert(decimal(n / 100) =~= seq![digit_char(n / 1000), digit_char((n / 100) % 10)]);
        assert(decimal(n / 10) =~= seq![
            digit_char(n / 1000),
            digit_char((n / 100) % 10),
            digit_char((n / 10) % 10),
        ]);
        assert(decimal(n) =~= want);
    }
}

/// A digit is the character of its value.
pub proof fn lemma_digit_char(d: nat)
    requires
        d < 10,
    ensures
        is_digit(digit_char(d)),
        digit_value(digit_char(d)) == d,
{
}

/// The two digits of a number below 100 write the number.
pub proof fn lemma_two_digits_read(s: Seq<char>, i: int, n: nat)
    requires
        n < 100,
        0 <= i,
        i + 2 <= s.len(),
        s[i] == digit_char(n / 10),
        s[i + 1] == digit_char(n % 10),
    ensures
        digits_at(s, i, 2),
        number2(s, i) == n,
{
    lemma_digit_char(n / 10);
    lemma_digit_char(n % 10);
}

/// The four digits of a number below 10000 write the number.
pub proof fn lemma_four_digits_read(s: Seq<char>, i: int, n: nat)
    requires
        n < 10000,
        0 <= i,
        i + 4 <= s.len(),
        s[i] == digit_char(n / 1000),
        s[i + 1] == digit_char((n / 100) % 10),
        s[i + 2] == digit_char((n / 10) % 10),
        s[i + 3] == digit_char(n % 10),
    ensures
        digits_at(s, i, 4),
        number4(s, i) == n,
{
    lemma_digit_char(n / 1000);
    lemma_digit_char((n / 100) % 10);
    lemma_digit_char((n / 10) % 10);
    lemma_digit_char(n % 10);
    assert(number2(s, i) == (n / 1000) * 10 + (n / 100) % 10);
    assert(number2(s, i + 2) == ((n / 10) % 10) * 10 + n % 10);
    assert(number2(s, i) == n / 100);
    assert(number2(s, i + 2) == n % 100);
}

/// The characters of a moment as it is written.
pub proof fn lemma_text_chars(t: DateTime)
    requires
        t.valid(),
    ensures
        t.text() == seq![
            digit_char(t.year as nat / 1000),
            digit_char((t.year as nat / 100) % 10),
            digit_char((t.year as nat / 10) % 10),
            digit_char(t.year as nat % 10),
            '-',
            digit_char(t.month as nat / 10),
            digit_char(t.month as nat % 10),
            '-',
            digit_char(t.day as nat / 10),
            digit_char(t.day as nat % 10),
            ' ',
            digit_char(t.hour as nat / 10),
            digit_char(t.hour as nat % 10),
            ':',
            digit_char(t.minute as nat / 10),
            digit_char(t.minute as nat % 10),
            ':',
            digit_char(t.second as nat / 10),
            digit_char(t.second as nat % 10),
        ],
{
    lemma_padded_four(t.year as nat);
    lemma_padded_two(t.month as nat);
    lemma_padded_two(t.day as nat);
    lemma_padded_two(t.hour as nat);
    lemma_padded_two(t.minute as nat);
    lemma_padded_two(t.second as nat);
    assert(t.text() =~= seq![
        digit_char(t.year as nat / 1000),
        digit_char((t.year as nat / 100) % 10),
        digit_char((t.year as nat / 10) % 10),
        digit_char(t.year as nat % 10),
        '-',
        digit_char(t.month as nat / 10),
        digit_char(t.month as nat % 10),
        '-',
        digit_char(t.day as nat / 10),
        digit_char(t.day as nat % 10),
        ' ',
        digit_char(t.hour as nat / 10),
        digit_char(t.hour as nat % 10),
        ':',
        digit_char(t.minute as nat / 10),
        digit_char(t.minute as nat % 10),
        ':',
        digit_char(t.second as nat / 10),
        digit_char(t.second as nat % 10),
    ]);
}

/// Reading a moment as it is written gives the moment back: the text of a
/// date of the calendar is a date literal that stands for that moment alone.
pub proof fn lemma_text_reads_back(t: DateTime)
    requires
        t.valid(),
    ensures
        literal_range(t.text()) == Some((t, t)),
{
    lemma_text_chars(t);
    let s = t.text();
    assert(s.len() == 19);
    lemma_four_digits_read(s, 0, t.year as nat);
    lemma_two_digits_read(s, 5, t.month as nat);
    lemma_two_digits_read(s, 8, t.day as nat);
    lemma_two_digits_read(s, 11, t.hour as nat);
    lemma_two_digits_read(s, 14, t.minute as nat);
    lemma_two_digits_read(s, 17, t.second as nat);
    assert(s[4] == '-' && s[7] == '-' && s[10] == ' ' && s[13] == ':' && s[16] == ':');
    assert(has_month(s));
    assert(has_day(s));
    assert(has_time(s));
}

} // verus!
