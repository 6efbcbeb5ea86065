//! What holds of what is told of the machine: its network, its clock, its sleep, and how the program
//! is started.
use crate::entry::{asked_by, asked_for, role_of, Argument, Mode, Role};
use crate::fprintd::{is_available, Lookup};
use crate::initial_session::{is_requested, setup_runs};
use crate::localize::{is_locale_name, time_locale};
use crate::logind::{Action, Handler, Signal};
use crate::networkmanager::{any_wired, icon_for, icon_with, Device, NetworkIcon};
use crate::systemd::{icon_of_links, icon_shown, is_connected, Link};
use crate::text::{opt_text, replaced};
use crate::text_laws::law_the_first_piece_stays;
use crate::theme::Palette;
use crate::time::{
    chosen_locale, cleaned, first_requested, hour_cycle, is_locale, is_reading, is_time_zone,
    on_date, requested_locale, written_date, written_time, Cycle, Moment, Time,
};
use crate::upower::{is_battery, is_draining, is_full, BatteryState, BatteryType};
use vstd::prelude::*;

verus! {

// ---------------------------------------------------------------------------
// The network
// ---------------------------------------------------------------------------

/// Wireless devices count before wired ones, and of them the strongest; a device that tells nothing
/// counts for nothing.
pub proof fn law_the_strongest_device_is_shown(icon: NetworkIcon, devices: Seq<Device>, i: int)
    requires
        icon_for(icon, devices),
        0 <= i < devices.len(),
    ensures
        devices[i] is Wireless && devices[i]->Wireless_0 is Some ==> icon is Wireless
            && icon->Wireless_0 >= devices[i]->Wireless_0->0,
        devices[i] is Wired ==> !(icon is Disconnected),
        icon is Wireless ==> devices.contains(Device::Wireless(Some(icon->Wireless_0))),
        icon is Wired ==> devices.contains(Device::Wired),
{
    if icon is Wireless {
        let k = choose|k: int|
            0 <= k < devices.len() && #[trigger] devices[k] == Device::Wireless(
                Some(icon->Wireless_0),
            );
        assert(devices.contains(devices[k]));
    }
}

/// Without devices nothing is connected, and devices that tell nothing change nothing.
pub proof fn law_silent_devices_do_not_count(icon: NetworkIcon, devices: Seq<Device>)
    requires
        icon_for(icon, devices),
        forall|i: int|
            0 <= i < devices.len() ==> (#[trigger] devices[i]) is Other || devices[i]
                == Device::Wireless(None),
    ensures
        icon is Disconnected,
{
}

/// The icon of a wireless connection goes by quarters of the strength.
pub proof fn law_signals_are_shown_in_quarters(strength: u8)
    ensures
        strength < 25 ==> NetworkIcon::Wireless(strength).icon_name()
            == "network-wireless-signal-weak-symbolic"@,
        25 <= strength < 50 ==> NetworkIcon::Wireless(strength).icon_name()
            == "network-wireless-signal-ok-symbolic"@,
        50 <= strength < 75 ==> NetworkIcon::Wireless(strength).icon_name()
            == "network-wireless-signal-good-symbolic"@,
        75 <= strength ==> NetworkIcon::Wireless(strength).icon_name()
            == "network-wireless-signal-excellent-symbolic"@,
        NetworkIcon::Wired.icon_name() == "network-wired-symbolic"@,
        NetworkIcon::Disconnected.icon_name() == "network-wired-disconnected-symbolic"@,
{
}

/// Of the links that are online a wireless one is shown first, at full strength, and then a wired
/// one; links that are not online, or of other kinds, are not shown.
pub proof fn law_online_links_are_shown(links: Seq<Link>, i: int)
    requires
        0 <= i < links.len(),
    ensures
        links[i].online_state is Online && links[i].link_type is Wlan ==> icon_of_links(links)
            == NetworkIcon::Wireless(100),
        links[i].online_state is Online && links[i].link_type is Ether ==> !(icon_of_links(
            links,
        ) is Disconnected),
        icon_of_links(links) is Wireless ==> exists|k: int|
            0 <= k < links.len() && (#[trigger] links[k]).online_state is Online
                && links[k].link_type is Wlan,
        icon_of_links(links) is Wired ==> exists|k: int|
            0 <= k < links.len() && (#[trigger] links[k]).online_state is Online
                && links[k].link_type is Ether,
{
}

/// The machine counts as connected if all of its links are, or some.
pub proof fn law_partly_connected_counts(state: Seq<char>)
    ensures
        is_connected(state) <==> seq!["online"@, "partial"@].contains(state),
{
    let both = seq!["online"@, "partial"@];
    if is_connected(state) {
        if state == "online"@ {
            assert(both[0] == state);
        } else {
            assert(both[1] == state);
        }
    }
}

// ---------------------------------------------------------------------------
// The clock
// ---------------------------------------------------------------------------

/// The encoding of a setting does not count, and underscores become hyphens, one for one.
pub proof fn law_settings_are_cleaned(setting: Seq<char>, encoding: Seq<char>, i: int)
    requires
        !setting.contains('.'),
        0 <= i < setting.len(),
    ensures
        cleaned(setting) == cleaned(setting + seq!['.'] + encoding),
        cleaned(setting).len() == setting.len(),
        cleaned(setting)[i] == (if setting[i] == '_' {
            '-'
        } else {
            setting[i]
        }),
{
    law_the_first_piece_stays(setting, encoding, '.');
}

/// A setting asks for all of itself if that is a language, or else for what comes before its region
/// if that is one, or else for nothing.
pub proof fn law_settings_ask_for_languages(language: Seq<char>, region: Seq<char>)
    requires
        !language.contains('.'),
        !language.contains('_'),
        !language.contains('-'),
        !region.contains('.'),
        !region.contains('_'),
    ensures
        ({
            let setting = language + seq!['_'] + region;
            let whole = language + seq!['-'] + region;
            &&& is_locale(whole) ==> requested_locale(Some(setting)) == Some(whole)
            &&& !is_locale(whole) && is_locale(language) ==> requested_locale(Some(setting)) == Some(
                language,
            )
            &&& !is_locale(whole) && !is_locale(language) ==> requested_locale(Some(setting)) is None
        }),
        requested_locale(None) is None,
{
    let setting = language + seq!['_'] + region;
    let whole = language + seq!['-'] + region;
    assert(!setting.contains('.')) by {
        if setting.contains('.') {
            let k = choose|k: int| 0 <= k < setting.len() && setting[k] == '.';
            if k < language.len() {
                assert(language[k] == '.');
            } else if k > language.len() {
                assert(region[k - language.len() - 1] == '.');
            }
        }
    }
    law_the_first_piece_stays(setting, Seq::empty(), '.');
    assert(cleaned(setting) =~= whole) by {
        assert forall|k: int| 0 <= k < whole.len() implies replaced(setting, '_', '-')[k]
            == whole[k] by {
            if k < language.len() {
                assert(setting[k] == language[k]);
            } else if k > language.len() {
                assert(setting[k] == region[k - language.len() - 1]);
            }
        }
    }
    law_the_first_piece_stays(language, region, '-');
}

/// The first setting that asks for a language counts, and those after it do not; where none asks for
/// one, dates are in American English.
pub proof fn law_the_first_language_counts(settings: Seq<Option<Seq<char>>>, i: int)
    requires
        0 <= i <= settings.len(),
        forall|j: int| 0 <= j < i ==> requested_locale(#[trigger] settings[j]) is None,
    ensures
        i < settings.len() && requested_locale(settings[i]) is Some ==> chosen_locale(settings)
            == requested_locale(settings[i])->0,
        i == settings.len() ==> chosen_locale(settings) == "en-US"@,
{
    lemma_first_requested(settings, i);
}

proof fn lemma_first_requested(settings: Seq<Option<Seq<char>>>, i: int)
    requires
        0 <= i <= settings.len(),
        forall|j: int| 0 <= j < i ==> requested_locale(#[trigger] settings[j]) is None,
    ensures
        i < settings.len() && requested_locale(settings[i]) is Some ==> first_requested(settings)
            == requested_locale(settings[i]),
        i == settings.len() ==> first_requested(settings) is None,
    decreases settings.len(),
{
    if i > 0 {
        assert(requested_locale(settings[0]) is None);
        let rest = settings.drop_first();
        assert forall|j: int| 0 <= j < i - 1 implies requested_locale(#[trigger] rest[j]) is None by {
            assert(rest[j] == settings[j + 1]);
        }
        lemma_first_requested(rest, i - 1);
        if i < settings.len() {
            assert(rest[i - 1] == settings[i]);
        }
    }
}

/// The setting for times counts before that for everything, without its encoding, as long as it is a
/// locale; otherwise times are American.
pub proof fn law_times_have_their_own_setting(
    name: Seq<char>,
    encoding: Seq<char>,
    lang: Option<Seq<char>>,
)
    requires
        !name.contains('.'),
    ensures
        is_locale_name(name) ==> time_locale(Some(name), lang) == name && time_locale(
            Some(name + seq!['.'] + encoding),
            lang,
        ) == name && time_locale(None, Some(name)) == name,
        !is_locale_name(name) ==> time_locale(Some(name), lang) == "en_US"@ && time_locale(
            None,
            Some(name),
        ) == "en_US"@,
        time_locale(None, None) == "en_US"@,
{
    law_the_first_piece_stays(name, encoding, '.');
}

/// A tick reads the clock where it stands: in its time zone if that is one, and otherwise in that of
/// the machine; and it changes neither the zone nor the language.
pub proof fn law_ticks_read_the_clock(old: Time, new: Time)
    requires
        new.ticked(old),
    ensures
        new.timezone == old.timezone,
        new.locale == old.locale,
        old.timezone is Some && is_time_zone(old.timezone->0@) ==> is_reading(
            new.now,
            Some(old.timezone->0@),
        ),
        old.timezone is None ==> is_reading(new.now, None),
        old.timezone is Some && !is_time_zone(old.timezone->0@) ==> is_reading(new.now, None),
{
}

/// A date is shown on its own day, with the time of the clock; and a clock of 24 hours counts them
/// from 0 to 23.
pub proof fn law_dates_keep_their_day(date: Moment, now: Moment)
    ensures
        on_date(date, now).year == date.year,
        on_date(date, now).month == date.month,
        on_date(date, now).day == date.day,
        on_date(date, now).hour == now.hour,
        on_date(date, now).minute == now.minute,
        on_date(date, now).second == now.second,
        hour_cycle(true) == Cycle::H23,
        hour_cycle(false) == Cycle::H12,
{
}

// ---------------------------------------------------------------------------
// Sleep
// ---------------------------------------------------------------------------

/// Signals of the login manager are passed on: locking locks, unlocking unlocks, and before sleep the
/// inhibitor is handed over and then the session locked. After sleep the clock is read, and there is
/// an inhibitor again.
pub proof fn law_signals_are_passed_on(
    old: Handler,
    new: Handler,
    signal: Signal,
    actions: Seq<Action>,
)
    requires
        new.handled(old, signal, actions),
    ensures
        signal == Signal::Lock ==> actions == seq![Action::SendLock],
        signal == Signal::Unlock ==> actions == seq![Action::SendUnlock],
        signal == Signal::PrepareForSleep(None) ==> actions.len() == 0,
        signal != Signal::PrepareForSleep(Some(true)) ==> new.inhibit_opt == old.inhibit_opt,
        signal == Signal::PrepareForSleep(Some(true)) ==> {
            &&& new.inhibit_opt is None
            &&& actions.len() > 0
            &&& actions.last() == Action::SendLock
            &&& old.inhibit_opt is None ==> actions.len() == 1
            &&& old.inhibit_opt is Some ==> actions.len() == 2 && actions[0] == Action::SendInhibit(
                old.inhibit_opt->0,
            )
        },
        signal == Signal::PrepareForSleep(Some(false)) ==> {
            &&& actions.len() > 0
            &&& actions.last() == Action::SendTick
            &&& old.inhibit_opt is Some ==> actions.len() == 1
            &&& old.inhibit_opt is None ==> actions.len() == 2 && actions[0] == Action::Acquire
        },
{
}

// ---------------------------------------------------------------------------
// The start
// ---------------------------------------------------------------------------

/// The first argument that asks for something counts; where none does, the program runs.
pub proof fn law_the_first_argument_counts(arguments: Seq<Argument>, i: int)
    requires
        0 <= i <= arguments.len(),
        forall|j: int| 0 <= j < i ==> asked_by(#[trigger] arguments[j]) is None,
    ensures
        i < arguments.len() && asked_by(arguments[i]) is Some ==> asked_for(arguments)
            == asked_by(arguments[i])->0,
        i == arguments.len() ==> asked_for(arguments) == Mode::Run,
    decreases arguments.len(),
{
    if i > 0 {
        assert(asked_by(arguments[0]) is None);
        let rest = arguments.drop_first();
        assert forall|j: int| 0 <= j < i - 1 implies asked_by(#[trigger] rest[j]) is None by {
            assert(rest[j] == arguments[j + 1]);
        }
        law_the_first_argument_counts(rest, i - 1);
        if i < arguments.len() {
            assert(rest[i - 1] == arguments[i]);
        }
    }
}

/// Help and the version are asked for by a letter or by a word, and by nothing else.
pub proof fn law_arguments_ask_by_letter_or_word(argument: Argument)
    ensures
        asked_by(argument) == Some(Mode::Help) <==> argument == Argument::Short('h') || (argument
            is Long && argument->Long_0@ == "help"@),
        asked_by(argument) == Some(Mode::Version) <==> argument == Argument::Short('v') || (argument
            is Long && argument->Long_0@ == "version"@),
        asked_by(argument) != Some(Mode::Run),
{
    reveal_strlit("help");
    reveal_strlit("version");
    assert("help"@.len() != "version"@.len());
}

/// The setup is asked for by a word anywhere on the command line of the kernel.
pub proof fn law_the_setup_is_asked_for_by_a_word(before: Seq<char>, after: Seq<char>)
    ensures
        is_requested(Some(before + "cosmic.initial-setup=1"@ + after)),
        !is_requested(None),
{
    let word = "cosmic.initial-setup=1"@;
    let line = before + word + after;
    let k = before.len() as int;
    assert(line.subrange(k, k + word.len()) == word);
    crate::conversation_laws::lemma_mentions(line, word);
    assert(crate::conversation_laws::mentions(line, word)) by {
        assert((before + word) + after == line);
    }
}

/// A fingerprint can be used as soon as one finger is enrolled.
pub proof fn law_one_finger_is_enough(lookup: Lookup)
    ensures
        is_available(lookup) <==> lookup is Fingers && lookup->Fingers_0@.len() >= 1,
{
}

/// Every palette is dark or light, and with high contrast or without; and no two are alike.
pub proof fn law_palettes_are_told_apart(palette: Palette)
    ensures
        palette.dark() <==> palette is Dark || palette is HighContrastDark,
        !palette.dark() <==> palette is Light || palette is HighContrastLight,
        palette.high_contrast() <==> palette is HighContrastDark || palette is HighContrastLight,
{
}

/// The program is the greeter for the greeter's own account and for no other; and it is nothing only
/// where there is no account.
pub proof fn law_the_greeter_has_its_own_account(name: String)
    ensures
        role_of(Some(name)) == Some(Role::Greeter) <==> name@ == "cosmic-greeter"@,
        role_of(Some(name)) == Some(Role::Locker) <==> name@ != "cosmic-greeter"@,
        role_of(None) is None,
{
}

/// The setup runs where it was asked for, whatever accounts there are; and otherwise exactly where
/// there are none. Nothing is known only where the accounts could not be counted.
pub proof fn law_the_setup_runs_without_accounts(
    cmdline: Option<Seq<char>>,
    accounts: Option<usize>,
)
    ensures
        setup_runs(cmdline, accounts) == Some(true) <==> is_requested(cmdline) || accounts == Some(
            0usize,
        ),
        setup_runs(cmdline, accounts) is None <==> !is_requested(cmdline) && accounts is None,
{
}

// ---------------------------------------------------------------------------
// One thing after another
// ---------------------------------------------------------------------------

/// Devices can be seen one after another: the icon for some of them, with one more, is the icon for all
/// of them.
pub proof fn law_devices_are_seen_one_by_one(
    icon: NetworkIcon,
    devices: Seq<Device>,
    device: Device,
)
    requires
        icon_for(icon, devices),
    ensures
        icon_for(icon_with(icon, device), devices.push(device)),
{
    let after = devices.push(device);
    let n = devices.len() as int;
    assert(after[n] == device);
    assert forall|j: int| 0 <= j < devices.len() implies after[j] == devices[j] by {}
    if let NetworkIcon::Wireless(strength) = icon {
        let j = choose|j: int|
            0 <= j < devices.len() && #[trigger] devices[j] == Device::Wireless(Some(strength));
        assert(after[j] == Device::Wireless(Some(strength)));
    }
    if any_wired(devices) {
        let j = choose|j: int| 0 <= j < devices.len() && #[trigger] devices[j] == Device::Wired;
        assert(after[j] == Device::Wired);
    }
    if any_wired(after) && device != Device::Wired {
        let j = choose|j: int| 0 <= j < after.len() && #[trigger] after[j] == Device::Wired;
        assert(devices[j] == Device::Wired);
    }
}

/// Something is shown of the network if and only if the machine counts as connected, and that is the
/// icon of its links.
pub proof fn law_the_network_is_shown_while_connected(state: Seq<char>, links: Seq<Link>)
    ensures
        state == "online"@ || state == "partial"@ ==> icon_shown(state, links) == Some(
            icon_of_links(links).icon_name(),
        ),
        state != "online"@ && state != "partial"@ ==> icon_shown(state, links) is None,
{
}

/// A battery counts only where it powers the machine; it drains while it is discharging, and is full
/// when it says so.
pub proof fn law_batteries_say_what_they_do(
    kind: BatteryType,
    power_supply: bool,
    state: BatteryState,
)
    ensures
        is_battery(kind, power_supply) <==> kind is Battery && power_supply,
        is_draining(state) <==> state is Discharging,
        is_full(state) <==> state is FullyCharged,
{
}

/// The clock shows its own date and time, in its own language; a clock of 24 hours has the larger
/// digits.
pub proof fn law_the_clock_shows_what_was_read(
    time: Time,
    shown: (Option<String>, Option<String>, u32),
    military_time: bool,
)
    requires
        time.is_shown(shown, military_time),
    ensures
        opt_text(shown.0) == written_date(time.locale@, time.now),
        military_time ==> opt_text(shown.1) == written_time(time.locale@, time.now, Cycle::H23)
            && shown.2 == 112,
        !military_time ==> opt_text(shown.1) == written_time(time.locale@, time.now, Cycle::H12)
            && shown.2 == 75,
{
}

}
