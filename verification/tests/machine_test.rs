//! The network, the battery, fingerprints, the first setup and the arguments.
use cosmic_greeter::entry::{choose_mode, choose_role, Argument, Mode, Role};
use cosmic_greeter::fprintd::{fingerprint_available, use_fingerprint, Lookup};
use cosmic_greeter::initial_session::{condition_met, kernel_cmdline_enabled};
use cosmic_greeter::networkmanager::{network_icon, with_device, Device, NetworkIcon};
use cosmic_greeter::systemd::{connected, link_icon, shown_icon, Link, LinkType, OnlineState};
use cosmic_greeter::upower::{counts_as_full, has_battery, on_battery, BatteryState, BatteryType};

#[test]
fn network_icons_have_names() {
    for (icon, name) in [
        (NetworkIcon::Disconnected, "network-wired-disconnected-symbolic"),
        (NetworkIcon::Wired, "network-wired-symbolic"),
        (NetworkIcon::Wireless(0), "network-wireless-signal-weak-symbolic"),
        (NetworkIcon::Wireless(24), "network-wireless-signal-weak-symbolic"),
        (NetworkIcon::Wireless(25), "network-wireless-signal-ok-symbolic"),
        (NetworkIcon::Wireless(49), "network-wireless-signal-ok-symbolic"),
        (NetworkIcon::Wireless(50), "network-wireless-signal-good-symbolic"),
        (NetworkIcon::Wireless(74), "network-wireless-signal-good-symbolic"),
        (NetworkIcon::Wireless(75), "network-wireless-signal-excellent-symbolic"),
        (NetworkIcon::Wireless(255), "network-wireless-signal-excellent-symbolic"),
    ] {
        assert_eq!(icon.name(), name);
    }
}

#[test]
fn the_strongest_wireless_device_counts() {
    assert_eq!(network_icon(&vec![]), NetworkIcon::Disconnected);
    assert_eq!(network_icon(&vec![Device::Other, Device::Wired]), NetworkIcon::Wired);
    assert_eq!(
        network_icon(&vec![
            Device::Wireless(Some(30)),
            Device::Wired,
            Device::Wireless(Some(70)),
            Device::Wireless(Some(50)),
            Device::Wireless(None),
        ]),
        NetworkIcon::Wireless(70)
    );
    assert_eq!(network_icon(&vec![Device::Wired, Device::Wireless(Some(0))]), NetworkIcon::Wireless(0));
    assert_eq!(with_device(NetworkIcon::Wired, Device::Wireless(None)), NetworkIcon::Wired);
}

fn link(online_state: OnlineState, link_type: LinkType) -> Link {
    Link { online_state, link_type }
}

#[test]
fn connected_links_are_shown() {
    assert!(connected("online") && connected("partial") && !connected("offline"));
    let links = vec![
        link(OnlineState::Online, LinkType::Loopback),
        link(OnlineState::Offline, LinkType::Wlan),
        link(OnlineState::Online, LinkType::Ether),
    ];
    assert_eq!(link_icon(&links), NetworkIcon::Wired);
    assert_eq!(shown_icon("online", &links), Some("network-wired-symbolic"));
    assert_eq!(shown_icon("routable", &links), None);
    let links = vec![
        link(OnlineState::Online, LinkType::Wlan),
        link(OnlineState::Online, LinkType::Ether),
    ];
    assert_eq!(link_icon(&links), NetworkIcon::Wireless(100));
    assert_eq!(link_icon(&vec![]), NetworkIcon::Disconnected);
}

#[test]
fn batteries_are_told_apart() {
    assert!(has_battery(BatteryType::Battery, true));
    assert!(!has_battery(BatteryType::Battery, false));
    assert!(!has_battery(BatteryType::Other, true));
    assert!(on_battery(BatteryState::Discharging) && !on_battery(BatteryState::FullyCharged));
    assert!(counts_as_full(BatteryState::FullyCharged) && !counts_as_full(BatteryState::Other));
}

#[test]
fn an_enrolled_finger_is_needed() {
    let fingers = Lookup::Fingers(vec!["right-index-finger".to_string()]);
    assert!(fingerprint_available(&fingers));
    assert!(!fingerprint_available(&Lookup::Fingers(vec![])));
    assert!(!fingerprint_available(&Lookup::NotEnrolled));
    assert!(!fingerprint_available(&Lookup::Unavailable));
    assert!(use_fingerprint(true, &fingers) && !use_fingerprint(false, &fingers));
}

#[test]
fn the_first_setup_runs_without_accounts() {
    let cmdline = |text: &str| Some(text.to_string());
    assert!(kernel_cmdline_enabled(&cmdline("quiet cosmic.initial-setup=1 splash")));
    assert!(!kernel_cmdline_enabled(&cmdline("cosmic.initial-setup=0")));
    assert!(!kernel_cmdline_enabled(&None));
    assert_eq!(condition_met(&cmdline("cosmic.initial-setup=1"), None), Some(true));
    assert_eq!(condition_met(&None, Some(0)), Some(true));
    assert_eq!(condition_met(&None, Some(2)), Some(false));
    assert_eq!(condition_met(&None, None), None);
}

#[test]
fn the_first_known_argument_counts() {
    let long = |name: &str| Argument::Long(name.to_string());
    assert_eq!(choose_mode(&vec![]), Mode::Run);
    assert_eq!(choose_mode(&vec![Argument::Value, long("other"), Argument::Short('x')]), Mode::Run);
    assert_eq!(choose_mode(&vec![Argument::Short('v'), Argument::Short('h')]), Mode::Version);
    assert_eq!(choose_mode(&vec![long("help"), long("version")]), Mode::Help);
    assert_eq!(choose_mode(&vec![Argument::Value, long("version")]), Mode::Version);
    assert_eq!(choose_mode(&vec![Argument::Short('h')]), Mode::Help);
}

#[test]
fn the_account_decides_what_runs() {
    assert_eq!(choose_role(&Some("cosmic-greeter".to_string())), Some(Role::Greeter));
    assert_eq!(choose_role(&Some("ada".to_string())), Some(Role::Locker));
    assert_eq!(choose_role(&None), None);
}
