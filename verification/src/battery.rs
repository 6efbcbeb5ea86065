//! The icon of the battery.
use crate::text::{concat2, concat3, decimal, decimal_text};
use vstd::prelude::*;
use vstd::string::*;

verus! {

broadcast use vstd::string::group_string_axioms;

/// A level between empty and full.
pub open spec fn clamped_level(level: i64) -> i64 {
    if level < 0 {
        0
    } else if level > 100 {
        100
    } else {
        level
    }
}

/// The step of the icon for a level in percent, rounded up. The highest steps are kept for
/// batteries that are charged all the way.
pub open spec fn battery_step(level: i64, limited: bool) -> nat {
    if level > 95 && !limited {
        100
    } else if level > 80 && !limited {
        90
    } else if level > 65 {
        80
    } else if level > 35 {
        50
    } else if level > 20 {
        35
    } else if level > 14 {
        20
    } else if level > 9 {
        10
    } else if level > 5 {
        5
    } else {
        0
    }
}

/// The name of the icon for a battery.
pub open spec fn battery_icon(level: i64, on_battery: bool, limited: bool) -> Seq<char> {
    "cosmic-applet-battery-level-"@ + decimal(battery_step(level, limited)) + "-"@ + (if limited {
        "limited-"@
    } else {
        ""@
    }) + (if on_battery {
        ""@
    } else {
        "charging-"@
    }) + "symbolic"@
}

fn step_of_battery(level: i64, limited: bool) -> (step: usize)
    ensures
        step == battery_step(level, limited),
{
    if level > 95 && !limited {
        100
    } else if level > 80 && !limited {
        90
    } else if level > 65 {
        80
    } else if level > 35 {
        50
    } else if level > 20 {
        35
    } else if level > 14 {
        20
    } else if level > 9 {
        10
    } else if level > 5 {
        5
    } else {
        0
    }
}

/// The name of the icon for a battery.
pub fn icon_for_battery(level: i64, on_battery: bool, limited: bool) -> (name: String)
    ensures
        name@ == battery_icon(level, on_battery, limited),
{
    let step = decimal_text(step_of_battery(level, limited));
    let limit = if limited {
        "limited-"
    } else {
        ""
    };
    let charge = if on_battery {
        ""
    } else {
        "charging-"
    };
    let stepped = concat3("cosmic-applet-battery-level-", step.as_str(), "-");
    let full = concat3(stepped.as_str(), limit, charge);
    concat2(full.as_str(), "symbolic")
}

/// A fuller battery never has a lower icon.
pub proof fn law_icon_follows_level(low: i64, high: i64, limited: bool)
    requires
        low <= high,
    ensures
        battery_step(low, limited) <= battery_step(high, limited),
{
}

}
