//! The plain data of the logger: instants, calendar days and activity records.

use crate::text::{two_digit_text, two_digits};
use vstd::prelude::*;
use vstd::string::*;

verus! {

/// Seconds since the Unix epoch of 0000-01-01T00:00:00 in local time.
pub const MIN_LOCAL_SECS: i64 = -62_167_219_200;

/// Seconds since the Unix epoch of 9999-12-31T23:59:59 in local time.
pub const MAX_LOCAL_SECS: i64 = 253_402_300_799;

/// A point in time together with the offset of the zone it was taken in.
///
/// `secs` and `nanos` count from 1970-01-01T00:00:00 UTC; `offset` is the
/// number of seconds that local time is ahead of UTC.
#[derive(Clone, Copy, Debug, PartialEq, Eq, Structural)]
pub struct Timestamp {
    pub secs: i64,
    pub nanos: u32,
    pub offset: i32,
}

impl Timestamp {
    /// The values this library works with: a sub-second part below one
    /// second, an offset of less than a day, and a local year of four digits.
    pub open spec fn wf(self) -> bool {
        &&& self.nanos < 1_000_000_000
        &&& -86_400 < self.offset < 86_400
        &&& MIN_LOCAL_SECS <= self.secs + self.offset <= MAX_LOCAL_SECS
    }

    /// `self` lies strictly before `other` on the time line; the offsets
    /// play no part in it.
    pub open spec fn precedes(self, other: Timestamp) -> bool {
        self.secs < other.secs || (self.secs == other.secs && self.nanos < other.nanos)
    }

    /// Tests `wf` at run time.
    pub fn is_valid(&self) -> (b: bool)
        ensures
            b == self.wf(),
    {
        if self.nanos >= 1_000_000_000 || self.offset <= -86_400 || self.offset >= 86_400 {
            return false;
        }
        if self.secs < -100_000_000_000 || self.secs > 300_000_000_000 {
            return false;
        }
        let local: i64 = self.secs + self.offset as i64;
        MIN_LOCAL_SECS <= local && local <= MAX_LOCAL_SECS
    }

    /// The seconds that have passed since local midnight.
    pub open spec fn second_of_day(self) -> int {
        (self.secs + self.offset) % 86_400
    }

    /// The local time of day in the form `HH:MM`.
    pub open spec fn time_text_spec(self) -> Seq<char> {
        two_digit_text((self.second_of_day() / 3600) as nat) + seq![':'] + two_digit_text(
            ((self.second_of_day() / 60) % 60) as nat,
        )
    }

    /// Writes the local time of day in the form `HH:MM`.
    pub fn time_text(&self) -> (text: String)
        requires
            self.wf(),
        ensures
            text@ == self.time_text_spec(),
    {
        proof {
            reveal_strlit(":");
        }
        let since_first_midnight: i64 = self.secs + self.offset as i64 - MIN_LOCAL_SECS;
        let second: u64 = (since_first_midnight % 86_400) as u64;
        assert(second == self.second_of_day());
        let mut text = two_digits(second / 3600);
        text.append(":");
        let minute = two_digits((second / 60) % 60);
        text.append(minute.as_str());
        assert(text@ =~= self.time_text_spec());
        text
    }

    /// The local time of day in the form `HH:MM:SS`.
    pub open spec fn clock_text_spec(self) -> Seq<char> {
        self.time_text_spec() + seq![':'] + two_digit_text((self.second_of_day() % 60) as nat)
    }

    /// Writes the local time of day in the form `HH:MM:SS`.
    pub fn clock_text(&self) -> (text: String)
        requires
            self.wf(),
        ensures
            text@ == self.clock_text_spec(),
    {
        proof {
            reveal_strlit(":");
        }
        let since_first_midnight: i64 = self.secs + self.offset as i64 - MIN_LOCAL_SECS;
        let second: u64 = (since_first_midnight % 86_400) as u64;
        assert(second == self.second_of_day());
        let mut text = self.time_text();
        text.append(":");
        let seconds = two_digits(second % 60);
        text.append(seconds.as_str());
        assert(text@ =~= self.clock_text_spec());
        text
    }

    /// Whether `self` is strictly before `other` on the time line.
    pub fn is_before(&self, other: &Timestamp) -> (b: bool)
        ensures
            b == self.precedes(*other),
    {
        self.secs < other.secs || (self.secs == other.secs && self.nanos < other.nanos)
    }
}

/// A calendar date of the proleptic Gregorian calendar.
#[derive(Clone, Copy, Debug, PartialEq, Eq, Structural)]
pub struct Day {
    pub year: i32,
    pub month: u32,
    pub day: u32,
}

pub open spec fn is_leap_year(year: int) -> bool {
    year % 4 == 0 && (year % 100 != 0 || year % 400 == 0)
}

pub open spec fn days_in_month(year: int, month: int) -> int {
    if month == 2 {
        if is_leap_year(year) {
            29
        } else {
            28
        }
    } else if month == 4 || month == 6 || month == 9 || month == 11 {
        30
    } else {
        31
    }
}

impl Day {
    /// A date that exists, with a year of four digits.
    pub open spec fn wf(self) -> bool {
        &&& 0 <= self.year <= 9999
        &&& 1 <= self.month <= 12
        &&& 1 <= self.day <= days_in_month(self.year as int, self.month as int)
    }

    /// The date in the form `YYYY-MM-DD`.
    pub open spec fn iso_text(self) -> Seq<char> {
        two_digit_text((self.year / 100) as nat) + two_digit_text((self.year % 100) as nat)
            + seq!['-'] + two_digit_text(self.month as nat) + seq!['-'] + two_digit_text(
            self.day as nat,
        )
    }

    /// Writes the date in the form `YYYY-MM-DD`.
    pub fn to_text(&self) -> (text: String)
        requires
            self.wf(),
        ensures
            text@ == self.iso_text(),
    {
        proof {
            reveal_strlit("-");
        }
        let year: u64 = self.year as u64;
        let mut text = two_digits(year / 100);
        let low = two_digits(year % 100);
        text.append(low.as_str());
        text.append("-");
        let month = two_digits(self.month as u64);
        text.append(month.as_str());
        text.append("-");
        let day = two_digits(self.day as u64);
        text.append(day.as_str());
        assert(text@ =~= self.iso_text());
        text
    }

    /// The date in the form `DD/MM`.
    pub open spec fn day_month_text(self) -> Seq<char> {
        two_digit_text(self.day as nat) + seq!['/'] + two_digit_text(self.month as nat)
    }

    /// The date in the form `DD/MM/YYYY`.
    pub open spec fn day_month_year_text(self) -> Seq<char> {
        self.day_month_text() + seq!['/'] + two_digit_text((self.year / 100) as nat)
            + two_digit_text((self.year % 100) as nat)
    }

    /// Writes the date in the form `DD/MM`.
    pub fn to_day_month(&self) -> (text: String)
        requires
            self.wf(),
        ensures
            text@ == self.day_month_text(),
    {
        proof {
            reveal_strlit("/");
        }
        let mut text = two_digits(self.day as u64);
        text.append("/");
        let month = two_digits(self.month as u64);
        text.append(month.as_str());
        assert(text@ =~= self.day_month_text());
        text
    }

    /// Writes the date in the form `DD/MM/YYYY`.
    pub fn to_day_month_year(&self) -> (text: String)
        requires
            self.wf(),
        ensures
            text@ == self.day_month_year_text(),
    {
        proof {
            reveal_strlit("/");
        }
        let year: u64 = self.year as u64;
        let mut text = self.to_day_month();
        text.append("/");
        let high = two_digits(year / 100);
        text.append(high.as_str());
        let low = two_digits(year % 100);
        text.append(low.as_str());
        assert(text@ =~= self.day_month_year_text());
        text
    }

    /// The day before `self`; the first supported day has none.
    pub open spec fn previous_spec(self) -> Option<Day> {
        if self.day > 1 {
            Some(Day { day: (self.day - 1) as u32, ..self })
        } else if self.month > 1 {
            Some(
                Day {
                    year: self.year,
                    month: (self.month - 1) as u32,
                    day: days_in_month(self.year as int, self.month - 1) as u32,
                },
            )
        } else if self.year > 0 {
            Some(Day { year: (self.year - 1) as i32, month: 12, day: 31 })
        } else {
            None
        }
    }

    /// The day before `self`; the first supported day has none.
    pub fn previous(&self) -> (r: Option<Day>)
        requires
            self.wf(),
        ensures
            r == self.previous_spec(),
            r matches Some(day) ==> day.wf(),
    {
        if self.day > 1 {
            Some(Day { year: self.year, month: self.month, day: self.day - 1 })
        } else if self.month > 1 {
            let month: u32 = self.month - 1;
            let leap: bool = self.year % 4 == 0 && (self.year % 100 != 0 || self.year % 400 == 0);
            let day: u32 = if month == 2 {
                if leap {
                    29
                } else {
                    28
                }
            } else if month == 4 || month == 6 || month == 9 || month == 11 {
                30
            } else {
                31
            };
            Some(Day { year: self.year, month, day })
        } else if self.year > 0 {
            Some(Day { year: self.year - 1, month: 12, day: 31 })
        } else {
            None
        }
    }

    /// Tests `wf` at run time.
    pub fn is_valid(&self) -> (b: bool)
        ensures
            b == self.wf(),
    {
        if self.year < 0 || self.year > 9999 || self.month < 1 || self.month > 12 || self.day < 1 {
            return false;
        }
        let leap: bool = self.year % 4 == 0 && (self.year % 100 != 0 || self.year % 400 == 0);
        let last: u32 = if self.month == 2 {
            if leap {
                29
            } else {
                28
            }
        } else if self.month == 4 || self.month == 6 || self.month == 9 || self.month == 11 {
            30
        } else {
            31
        };
        self.day <= last
    }
}

/// One logged answer.
#[derive(Debug)]
pub struct Activity {
    /// Assigned by the log when the record is appended.
    pub id: Option<i64>,
    pub description: String,
    pub timestamp: Timestamp,
    /// The local calendar date of `timestamp` when the record was appended.
    pub date: Day,
}

/// What an `Activity` holds, as mathematical values.
pub struct ActivityView {
    pub id: Option<i64>,
    pub description: Seq<char>,
    pub timestamp: Timestamp,
    pub date: Day,
}

impl View for Activity {
    type V = ActivityView;

    open spec fn view(&self) -> ActivityView {
        ActivityView {
            id: self.id,
            description: self.description@,
            timestamp: self.timestamp,
            date: self.date,
        }
    }
}

impl Activity {
    /// A second record with the same contents.
    pub fn duplicate(&self) -> (copy: Activity)
        ensures
            copy@ == self@,
    {
        Activity {
            id: self.id,
            description: self.description.clone(),
            timestamp: self.timestamp,
            date: self.date,
        }
    }
}

/// The colour scheme of the windows.
#[derive(Clone, Copy, Debug, PartialEq, Eq, Structural)]
pub enum Theme {
    GruvboxDark,
    GruvboxLight,
}

impl Theme {
    /// The name under which the settings keep the theme.
    pub open spec fn name_text(self) -> Seq<char> {
        match self {
            Theme::GruvboxDark => "GruvboxDark"@,
            Theme::GruvboxLight => "GruvboxLight"@,
        }
    }

    /// The theme that a name in the settings stands for: the light one for
    /// its own name, the dark one for every other text.
    pub open spec fn named(name: Seq<char>) -> Theme {
        if name == "GruvboxLight"@ {
            Theme::GruvboxLight
        } else {
            Theme::GruvboxDark
        }
    }

    /// The name under which the settings keep the theme.
    pub fn name(&self) -> (name: String)
        ensures
            name@ == self.name_text(),
    {
        match self {
            Theme::GruvboxDark => String::from_str("GruvboxDark"),
            Theme::GruvboxLight => String::from_str("GruvboxLight"),
        }
    }

    /// Reads a theme from its name in the settings.
    pub fn from_name(name: &str) -> (theme: Theme)
        ensures
            theme == Theme::named(name@),
    {
        let given = name.to_owned();
        let light = String::from_str("GruvboxLight");
        if given == light {
            Theme::GruvboxLight
        } else {
            Theme::GruvboxDark
        }
    }
}

/// A theme is read back from the name it is kept under.
pub proof fn lemma_theme_name_round_trip(theme: Theme)
    ensures
        Theme::named(theme.name_text()) == theme,
{
    reveal_strlit("GruvboxDark");
    reveal_strlit("GruvboxLight");
    assert("GruvboxDark"@.len() != "GruvboxLight"@.len());
}

impl Default for Theme {
    fn default() -> (theme: Theme)
        ensures
            theme == Theme::GruvboxDark,
    {
        Theme::GruvboxDark
    }
}

/// The page that the viewer window shows.
#[derive(Clone, Copy, Debug, PartialEq, Eq, Structural)]
pub enum AppPage {
    Viewer,
    Settings,
}

} // verus!
