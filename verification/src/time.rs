//! The clock: the time zone, the language of dates, and what is shown.
use crate::text::{first_piece, hyphenated, opt_text, replaced, split};
use chrono::{Datelike, Timelike};
use icu::datetime::input::{Date, DateTime as IcuDateTime, Time as IcuTime};
use icu::datetime::options::TimePrecision;
use icu::datetime::{fieldsets, DateTimeFormatter, DateTimeFormatterPreferences};
use icu::locale::preferences::extensions::unicode::keywords::HourCycle;
use icu::locale::Locale;
use vstd::prelude::*;
use vstd::string::*;

verus! {

broadcast use vstd::string::group_string_axioms;

/// A moment on the calendar and the clock.
#[derive(Clone, Copy, Debug, PartialEq, Eq, Structural)]
pub struct Moment {
    pub year: i32,
    pub month: u8,
    pub day: u8,
    pub hour: u8,
    pub minute: u8,
    pub second: u8,
}

impl Moment {
    /// The fields are in the ranges of a calendar and a clock.
    pub open spec fn in_range(self) -> bool {
        &&& 1 <= self.month <= 12
        &&& 1 <= self.day <= 31
        &&& self.hour < 24
        &&& self.minute < 60
        &&& self.second < 60
    }
}

/// The clock of the greeter.
pub struct Time {
    /// The language and region that dates are written in.
    pub locale: String,
    /// The name of the time zone, once it is known.
    pub timezone: Option<String>,
    /// What the clock showed when it was last read.
    pub now: Moment,
}

// ---------------------------------------------------------------------------
// Language
// ---------------------------------------------------------------------------

/// `text` is a well formed language identifier.
pub uninterp spec fn is_locale(text: Seq<char>) -> bool;

/// Asks `icu::locale::Locale::try_from_str` whether it can parse a language identifier. The answer
/// is claimed to depend on the text alone.
#[verifier::external_body]
fn parses_as_locale(text: &str) -> (yes: bool)
    ensures
        yes == is_locale(text@),
{
    Locale::try_from_str(text).is_ok()
}

/// A setting such as `en_US.UTF8` in the notation of language identifiers: without its encoding,
/// with hyphens.
pub open spec fn cleaned(setting: Seq<char>) -> Seq<char> {
    replaced(split(setting, '.')[0], '_', '-')
}

/// The language that a setting asks for: all of it if that can be parsed, or else the part before
/// the region.
pub open spec fn requested_locale(setting: Option<Seq<char>>) -> Option<Seq<char>> {
    match setting {
        Some(setting) => {
            let whole = cleaned(setting);
            let language = split(whole, '-')[0];
            if is_locale(whole) {
                Some(whole)
            } else if is_locale(language) {
                Some(language)
            } else {
                None
            }
        },
        None => None,
    }
}

/// The language that the first setting asks for that asks for one.
pub open spec fn first_requested(settings: Seq<Option<Seq<char>>>) -> Option<Seq<char>>
    decreases settings.len(),
{
    if settings.len() == 0 {
        None
    } else {
        match requested_locale(settings[0]) {
            Some(locale) => Some(locale),
            None => first_requested(settings.drop_first()),
        }
    }
}

/// The language for dates, from the settings that name one, the most specific first.
pub open spec fn chosen_locale(settings: Seq<Option<Seq<char>>>) -> Seq<char> {
    match first_requested(settings) {
        Some(locale) => locale,
        None => "en-US"@,
    }
}

fn request_locale(setting: &Option<String>) -> (locale: Option<String>)
    ensures
        opt_text(locale) == requested_locale(opt_text(*setting)),
{
    match setting {
        Some(setting) => {
            let whole = hyphenated(first_piece(setting.as_str(), '.').as_str());
            if parses_as_locale(whole.as_str()) {
                return Some(whole);
            }
            let language = first_piece(whole.as_str(), '-');
            if parses_as_locale(language.as_str()) {
                return Some(language);
            }
            None
        },
        None => None,
    }
}

/// What optional strings hold.
pub open spec fn opt_views(settings: Seq<Option<String>>) -> Seq<Option<Seq<char>>> {
    settings.map_values(|setting: Option<String>| opt_text(setting))
}

/// The language for dates, from the settings that name one, the most specific first.
pub fn choose_locale(settings: &Vec<Option<String>>) -> (locale: String)
    ensures
        locale@ == chosen_locale(opt_views(settings@)),
{
    let ghost all = opt_views(settings@);
    let mut i: usize = 0;
    proof {
        assert(all.skip(0) == all);
    }
    while i < settings.len()
        invariant
            i <= settings@.len(),
            all == opt_views(settings@),
            first_requested(all) == first_requested(all.skip(i as int)),
        decreases settings@.len() - i,
    {
        match request_locale(&settings[i]) {
            Some(locale) => {
                return locale;
            },
            None => {},
        }
        proof {
            assert(all.skip(i as int).drop_first() == all.skip(i as int + 1));
        }
        i = i + 1;
    }
    "en-US".to_owned()
}

// ---------------------------------------------------------------------------
// Reading the clock
// ---------------------------------------------------------------------------

/// `now` is what the clock of the machine has shown on some reading, in a time zone or, without
/// one, in the zone of the machine. Two readings need not be the same: this is a relation, and says
/// nothing of which moment comes next.
pub uninterp spec fn is_reading(now: Moment, zone: Option<Seq<char>>) -> bool;

/// Reads the clock through `chrono::Local::now`. Claimed are the ranges of the fields, which `chrono`
/// documents, and that the moment is a reading in the zone of the machine. Which moment it is stays
/// unsaid: it depends on the time. `chrono` panics where that is before 1970.
#[verifier::external_body]
fn read_clock() -> (now: Moment)
    ensures
        now.in_range(),
        is_reading(now, None),
{
    let now = chrono::Local::now();
    Moment {
        year: now.year(),
        month: now.month() as u8,
        day: now.day() as u8,
        hour: now.hour() as u8,
        minute: now.minute() as u8,
        second: now.second() as u8,
    }
}

/// `name` is the name of a time zone.
pub uninterp spec fn is_time_zone(name: Seq<char>) -> bool;

/// Asks `chrono_tz::Tz` whether it knows a time zone of this name. The answer is claimed to depend
/// on the name alone.
#[verifier::external_body]
fn parses_as_time_zone(name: &str) -> (yes: bool)
    ensures
        yes == is_time_zone(name@),
{
    name.parse::<chrono_tz::Tz>().is_ok()
}

/// Reads the clock in a time zone, through `chrono::Local::now` and `with_timezone`, if
/// `chrono_tz::Tz` knows the zone. Claimed are the ranges of the fields, and that the moment is a
/// reading in this zone. Which moment it is stays unsaid: it depends on the time. `chrono` panics
/// where that is before 1970.
#[verifier::external_body]
fn read_clock_in(zone: &str) -> (now: Option<Moment>)
    ensures
        now is Some == is_time_zone(zone@),
        now is Some ==> now->0.in_range() && is_reading(now->0, Some(zone@)),
{
    let zone = zone.parse::<chrono_tz::Tz>().ok()?;
    let now = chrono::Local::now().with_timezone(&zone);
    Some(
        Moment {
            year: now.year(),
            month: now.month() as u8,
            day: now.day() as u8,
            hour: now.hour() as u8,
            minute: now.minute() as u8,
            second: now.second() as u8,
        },
    )
}

impl Time {
    /// The time zone that the clock is read in: its own if it is one, or else that of the machine.
    pub open spec fn zone(self) -> Option<Seq<char>> {
        match self.timezone {
            Some(zone) if is_time_zone(zone@) => Some(zone@),
            _ => None,
        }
    }

    /// This is the clock after a reading in its time zone, and nothing else of it has changed.
    pub open spec fn ticked(self, old: Time) -> bool {
        &&& self == (Time { now: self.now, ..old })
        &&& self.now.in_range()
        &&& is_reading(self.now, old.zone())
    }

    /// A clock with the time zone of the machine, in the language that the settings ask for.
    pub fn new(settings: &Vec<Option<String>>) -> (time: Time)
        ensures
            time.locale@ == chosen_locale(opt_views(settings@)),
            time.timezone is None,
            time.now.in_range(),
            is_reading(time.now, None),
    {
        Time { locale: choose_locale(settings), timezone: None, now: read_clock() }
    }

    /// Changes the time zone, if it is one, and reads the clock.
    pub fn set_tz(&mut self, zone: String)
        ensures
            is_time_zone(zone@) ==> final(self).ticked(Time { timezone: Some(zone), ..*old(self) }),
            !is_time_zone(zone@) ==> *final(self) == *old(self),
    {
        if parses_as_time_zone(zone.as_str()) {
            self.timezone = Some(zone);
            self.tick();
        }
    }

    /// Reads the clock.
    pub fn tick(&mut self)
        ensures
            final(self).ticked(*old(self)),
    {
        let zoned = match &self.timezone {
            Some(zone) => read_clock_in(zone.as_str()),
            None => None,
        };
        let now = match zoned {
            Some(now) => now,
            None => read_clock(),
        };
        self.tick_at(now);
    }

    /// Takes over a reading of the clock.
    pub fn tick_at(&mut self, now: Moment)
        ensures
            *final(self) == (Time { now, ..*old(self) }),
    {
        self.now = now;
    }
}

/// Once the clock has been set to a time zone, every tick reads it there.
pub proof fn law_ticks_stay_in_the_zone(old: Time, zone: String, set: Time, later: Time)
    requires
        is_time_zone(zone@),
        set.ticked(Time { timezone: Some(zone), ..old }),
        later.ticked(set),
    ensures
        later.timezone == Some(zone),
        is_reading(set.now, Some(zone@)),
        is_reading(later.now, Some(zone@)),
{
}

/// How long the next tick has to wait, in seconds, so that ticks come at full minutes: nothing is
/// changed on the minute itself.
pub fn until_full_minute(second: u32) -> (wait: Option<u64>)
    ensures
        match wait {
            Some(wait) => 0 < wait < 60 && (second + wait) % 60 == 0,
            None => second % 60 == 0,
        },
{
    let current: u64 = second as u64 % 60;
    if current != 0 {
        Some(60 - current)
    } else {
        None
    }
}

// ---------------------------------------------------------------------------
// Showing the time
// ---------------------------------------------------------------------------

/// How a language writes a date, with its weekday, month and day. There is nothing if the language
/// or the date does not exist.
pub uninterp spec fn written_date(locale: Seq<char>, date: Moment) -> Option<Seq<char>>;

/// Writes a date with `icu::datetime::DateTimeFormatter` and the field set `MDE::long`. What comes
/// of it is claimed to depend on the language and the moment alone.
#[verifier::external_body]
fn write_date(locale: &str, at: Moment) -> (text: Option<String>)
    ensures
        opt_text(text) == written_date(locale@, at),
{
    let prefs = DateTimeFormatterPreferences::from(&Locale::try_from_str(locale).ok()?);
    let formatter = DateTimeFormatter::try_new(prefs, fieldsets::MDE::long()).ok()?;
    let date = Date::try_new_gregorian(at.year, at.month, at.day).ok()?;
    let time = IcuTime::try_new(at.hour, at.minute, at.second, 0).ok()?;
    Some(formatter.format(&IcuDateTime { date, time }).to_string())
}

/// How a clock counts the hours: from 12 over 1 to 11 twice a day, or from 0 to 23.
#[derive(Clone, Copy, Debug, PartialEq, Eq, Structural)]
pub enum Cycle {
    H12,
    H23,
}

/// The count that goes with a clock of 24 hours, or with another.
pub open spec fn hour_cycle(military_time: bool) -> Cycle {
    if military_time {
        Cycle::H23
    } else {
        Cycle::H12
    }
}

/// How a language writes a time to the minute. There is nothing if the language or the moment does
/// not exist.
pub uninterp spec fn written_time(locale: Seq<char>, at: Moment, cycle: Cycle) -> Option<Seq<char>>;

/// Writes a time with `icu::datetime::DateTimeFormatter` and the field set `T::medium`, to the
/// minute, with the hour cycle of the same name. What comes of it is claimed to depend on the
/// language, the moment and the hour cycle alone.
#[verifier::external_body]
fn write_time(locale: &str, at: Moment, cycle: Cycle) -> (text: Option<String>)
    ensures
        opt_text(text) == written_time(locale@, at, cycle),
{
    let mut prefs = DateTimeFormatterPreferences::from(&Locale::try_from_str(locale).ok()?);
    prefs.hour_cycle = Some(match cycle { Cycle::H23 => HourCycle::H23, Cycle::H12 => HourCycle::H12 });
    let fields = fieldsets::T::medium().with_time_precision(TimePrecision::Minute);
    let formatter = DateTimeFormatter::try_new(prefs, fields).ok()?;
    let date = Date::try_new_gregorian(at.year, at.month, at.day).ok()?;
    let time = IcuTime::try_new(at.hour, at.minute, at.second, 0).ok()?;
    Some(formatter.format(&IcuDateTime { date, time }).to_string())
}

/// A date with the time of day of the clock.
pub open spec fn on_date(date: Moment, now: Moment) -> Moment {
    Moment { hour: now.hour, minute: now.minute, second: now.second, ..date }
}

impl Time {
    /// How a date is shown.
    pub fn format_date(&self, date: &Moment) -> (text: Option<String>)
        ensures
            opt_text(text) == written_date(self.locale@, on_date(*date, self.now)),
    {
        let at = Moment {
            year: date.year,
            month: date.month,
            day: date.day,
            hour: self.now.hour,
            minute: self.now.minute,
            second: self.now.second,
        };
        write_date(self.locale.as_str(), at)
    }

    /// How the time of the clock is shown on a date.
    pub fn format_time(&self, date: &Moment, military_time: bool) -> (text: Option<String>)
        ensures
            opt_text(text) == written_time(
                self.locale@,
                on_date(*date, self.now),
                hour_cycle(military_time),
            ),
    {
        let at = Moment {
            year: date.year,
            month: date.month,
            day: date.day,
            hour: self.now.hour,
            minute: self.now.minute,
            second: self.now.second,
        };
        let cycle = if military_time {
            Cycle::H23
        } else {
            Cycle::H12
        };
        write_time(self.locale.as_str(), at, cycle)
    }

    /// The clock is shown as this date, this time, and digits of this size.
    pub open spec fn is_shown(
        self,
        shown: (Option<String>, Option<String>, u32),
        military_time: bool,
    ) -> bool {
        &&& opt_text(shown.0) == written_date(self.locale@, self.now)
        &&& opt_text(shown.1) == written_time(self.locale@, self.now, hour_cycle(military_time))
        &&& shown.2 == (if military_time {
            112u32
        } else {
            75u32
        })
    }

    /// What the clock of the greeter shows: the date, the time, and the size of the time's digits
    /// in pixels. A clock of 24 hours has room for larger ones.
    pub fn date_time_widget(&self, military_time: bool) -> (shown: (
        Option<String>,
        Option<String>,
        u32,
    ))
        ensures
            self.is_shown(shown, military_time),
    {
        let size: u32 = if military_time {
            112
        } else {
            75
        };
        (self.format_date(&self.now), self.format_time(&self.now, military_time), size)
    }
}

}
