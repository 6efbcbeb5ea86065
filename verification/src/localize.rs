//! The language of the machine.
use crate::text::{first_piece, opt_text, split};
use std::str::FromStr;
use vstd::prelude::*;
use vstd::string::*;

verus! {

broadcast use vstd::string::group_string_axioms;

/// `name` is the name of a locale such as `en_US`.
pub uninterp spec fn is_locale_name(name: Seq<char>) -> bool;

/// Asks `chrono::Locale::from_str` whether it knows a locale. The answer is claimed to depend on
/// the name alone.
#[verifier::external_body]
fn parses_as_locale_name(name: &str) -> (yes: bool)
    ensures
        yes == is_locale_name(name@),
{
    chrono::Locale::from_str(name).is_ok()
}

/// The locale for times: what is set for times, or else for everything, without its encoding, if
/// that is a locale.
pub open spec fn time_locale(lc_time: Option<Seq<char>>, lang: Option<Seq<char>>) -> Seq<char> {
    let setting = if lc_time is Some {
        lc_time
    } else {
        lang
    };
    match setting {
        Some(setting) if is_locale_name(split(setting, '.')[0]) => split(setting, '.')[0],
        _ => "en_US"@,
    }
}

/// The locale for times, from the settings for times and for everything.
pub fn choose_time_locale(lc_time: Option<String>, lang: Option<String>) -> (name: String)
    ensures
        name@ == time_locale(opt_text(lc_time), opt_text(lang)),
{
    let setting = match lc_time {
        Some(setting) => Some(setting),
        None => lang,
    };
    if let Some(setting) = setting {
        let name = first_piece(setting.as_str(), '.');
        if parses_as_locale_name(name.as_str()) {
            return name;
        }
    }
    "en_US".to_owned()
}

}
