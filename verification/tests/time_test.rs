//! Locales, time zones and what the clock shows.
use cosmic_greeter::localize::choose_time_locale;
use cosmic_greeter::time::{choose_locale, until_full_minute, Moment, Time};

fn some(text: &str) -> Option<String> {
    Some(text.to_string())
}

#[test]
fn the_first_usable_locale_is_taken() {
    assert_eq!(choose_locale(&vec![some("de_DE.UTF-8"), some("fr_FR")]), "de-DE");
    assert_eq!(choose_locale(&vec![None, None, some("fr_FR.UTF-8")]), "fr-FR");
    assert_eq!(choose_locale(&vec![some("C.UTF-8"), some("ja_JP")]), "ja-JP");
    assert_eq!(choose_locale(&vec![some("POSIX"), some("sr_Latn_RS")]), "sr-Latn-RS");
}

#[test]
fn the_language_alone_will_do() {
    assert_eq!(choose_locale(&vec![some("de_@x")]), "de");
}

#[test]
fn without_a_locale_there_is_a_fallback() {
    assert_eq!(choose_locale(&vec![None, None, None]), "en-US");
    assert_eq!(choose_locale(&vec![some(""), some("C"), some("!")]), "en-US");
}

#[test]
fn chrono_locales_are_chosen_by_name() {
    assert_eq!(choose_time_locale(some("de_DE.UTF-8"), some("fr_FR")), "de_DE");
    assert_eq!(choose_time_locale(None, some("fr_FR.UTF-8")), "fr_FR");
    assert_eq!(choose_time_locale(some("nonsense"), some("fr_FR")), "en_US");
    assert_eq!(choose_time_locale(None, None), "en_US");
}

#[test]
fn the_clock_ticks_on_full_minutes() {
    assert_eq!(until_full_minute(0), None);
    assert_eq!(until_full_minute(1), Some(59));
    assert_eq!(until_full_minute(59), Some(1));
    assert_eq!(until_full_minute(60), None);
}

fn moment() -> Moment {
    Moment { year: 2024, month: 2, day: 29, hour: 17, minute: 5, second: 59 }
}

fn time(locale: &str) -> Time {
    Time { locale: locale.to_string(), timezone: None, now: moment() }
}

#[test]
fn dates_are_written_in_the_locale() {
    assert_eq!(time("en-US").format_date(&moment()), some("Thursday, February 29"));
    assert_eq!(time("de-DE").format_date(&moment()), some("Donnerstag, 29. Februar"));
}

#[test]
fn times_are_written_to_the_minute() {
    assert_eq!(time("en-US").format_time(&moment(), true), some("17:05"));
    let twelve = time("en-US").format_time(&moment(), false).unwrap();
    assert!(twelve.starts_with("5:05") && twelve.ends_with("PM"), "{:?}", twelve);
}

#[test]
fn days_that_do_not_exist_are_not_written() {
    let date = Moment { year: 2023, ..moment() };
    assert_eq!(time("en-US").format_date(&date), None);
    assert_eq!(time("en-US").format_time(&date, true), None);
}

#[test]
fn the_twelve_hour_clock_is_smaller() {
    let (date, clock, size) = time("en-US").date_time_widget(true);
    assert_eq!(date, some("Thursday, February 29"));
    assert_eq!(clock, some("17:05"));
    assert_eq!(size, 112);
    assert_eq!(time("en-US").date_time_widget(false).2, 75);
}

#[test]
fn a_tick_takes_the_time_it_is_given() {
    let mut clock = time("en-US");
    let later = Moment { minute: 6, second: 0, ..moment() };
    clock.tick_at(later);
    assert_eq!(clock.now.minute, 6);
    assert_eq!(clock.locale, "en-US");
}

#[test]
fn a_tick_reads_the_clock() {
    let mut clock = time("en-US");
    clock.tick();
    assert!(clock.now.year >= 2025);
    assert_eq!(clock.timezone, None);
}

#[test]
fn only_known_time_zones_are_taken() {
    let mut clock = time("en-US");
    clock.set_tz("Europe/Nowhere".to_string());
    assert_eq!(clock.timezone, None);
    clock.set_tz("Asia/Tokyo".to_string());
    assert_eq!(clock.timezone, some("Asia/Tokyo"));
    assert!(clock.now.year >= 2025);
}

#[test]
fn a_new_clock_has_no_time_zone() {
    let clock = Time::new(&vec![some("fr_FR.UTF-8")]);
    assert_eq!(clock.locale, "fr-FR");
    assert_eq!(clock.timezone, None);
    assert!(clock.now.year >= 2025);
}

fn minutes(time: &Time) -> u32 {
    time.now.hour as u32 * 60 + time.now.minute as u32
}

#[test]
fn every_tick_reads_the_clock_in_the_time_zone() {
    let mut west = time("en-US");
    west.set_tz("Etc/GMT+12".to_string());
    west.tick();
    let mut east = time("en-US");
    east.set_tz("Etc/GMT-14".to_string());
    east.tick();
    assert_eq!(west.timezone, some("Etc/GMT+12"));
    assert_eq!(east.timezone, some("Etc/GMT-14"));
    let apart = (minutes(&east) + 24 * 60 - minutes(&west)) % (24 * 60);
    assert!((120..=121).contains(&apart), "{}", apart);
}
