//! The icon of the network.
use vstd::prelude::*;
use vstd::string::*;

verus! {

broadcast use vstd::string::group_string_axioms;

/// How the machine is connected.
#[derive(Clone, Copy, Debug, PartialEq, Eq, Structural)]
pub enum NetworkIcon {
    Disconnected,
    Wired,
    /// With the strength of the signal in percent.
    Wireless(u8),
}

impl NetworkIcon {
    /// The name of the icon.
    pub open spec fn icon_name(self) -> Seq<char> {
        match self {
            NetworkIcon::Disconnected => "network-wired-disconnected-symbolic"@,
            NetworkIcon::Wired => "network-wired-symbolic"@,
            NetworkIcon::Wireless(strength) => if strength < 25 {
                "network-wireless-signal-weak-symbolic"@
            } else if strength < 50 {
                "network-wireless-signal-ok-symbolic"@
            } else if strength < 75 {
                "network-wireless-signal-good-symbolic"@
            } else {
                "network-wireless-signal-excellent-symbolic"@
            },
        }
    }

    /// The name of the icon.
    pub fn name(&self) -> (name: &'static str)
        ensures
            name@ == self.icon_name(),
    {
        match self {
            NetworkIcon::Disconnected => "network-wired-disconnected-symbolic",
            NetworkIcon::Wired => "network-wired-symbolic",
            NetworkIcon::Wireless(strength) => {
                if *strength < 25 {
                    "network-wireless-signal-weak-symbolic"
                } else if *strength < 50 {
                    "network-wireless-signal-ok-symbolic"
                } else if *strength < 75 {
                    "network-wireless-signal-good-symbolic"
                } else {
                    "network-wireless-signal-excellent-symbolic"
                }
            },
        }
    }
}

/// A device of an active connection.
#[derive(Clone, Copy, Debug, PartialEq, Eq, Structural)]
pub enum Device {
    Wired,
    /// With the strength of the signal, if there is an access point that tells it.
    Wireless(Option<u8>),
    Other,
}

/// Some device is wired.
pub open spec fn any_wired(devices: Seq<Device>) -> bool {
    exists|i: int| 0 <= i < devices.len() && #[trigger] devices[i] == Device::Wired
}

/// `strength` is the greatest that any device tells.
pub open spec fn is_greatest_strength(devices: Seq<Device>, strength: u8) -> bool {
    &&& exists|i: int|
        0 <= i < devices.len() && #[trigger] devices[i] == Device::Wireless(Some(strength))
    &&& forall|i: int|
        0 <= i < devices.len() ==> (#[trigger] devices[i] matches Device::Wireless(Some(other))
            ==> other <= strength)
}

/// No device tells a strength.
pub open spec fn no_strength(devices: Seq<Device>) -> bool {
    forall|i: int|
        0 <= i < devices.len() ==> !(#[trigger] devices[i] matches Device::Wireless(Some(_)))
}

/// The icon for the devices: the strongest wireless one, or else a wired one, or else none.
pub open spec fn icon_for(icon: NetworkIcon, devices: Seq<Device>) -> bool {
    match icon {
        NetworkIcon::Wireless(strength) => is_greatest_strength(devices, strength),
        NetworkIcon::Wired => no_strength(devices) && any_wired(devices),
        NetworkIcon::Disconnected => no_strength(devices) && !any_wired(devices),
    }
}

/// The icon once one more device has been seen.
pub open spec fn icon_with(icon: NetworkIcon, device: Device) -> NetworkIcon {
    match (icon, device) {
        (NetworkIcon::Disconnected, Device::Wired) => NetworkIcon::Wired,
        (NetworkIcon::Wireless(other), Device::Wireless(Some(strength))) => NetworkIcon::Wireless(
            if strength >= other {
                strength
            } else {
                other
            },
        ),
        (_, Device::Wireless(Some(strength))) => NetworkIcon::Wireless(strength),
        _ => icon,
    }
}

/// The icon once one more device has been seen. A wired one counts only where there was nothing; a
/// wireless one counts more than anything but a stronger one.
pub fn with_device(icon: NetworkIcon, device: Device) -> (next: NetworkIcon)
    ensures
        next == icon_with(icon, device),
{
    match device {
        Device::Wired => match icon {
            NetworkIcon::Disconnected => NetworkIcon::Wired,
            other => other,
        },
        Device::Wireless(Some(strength)) => match icon {
            NetworkIcon::Wireless(other) => NetworkIcon::Wireless(
                if strength >= other {
                    strength
                } else {
                    other
                },
            ),
            _ => NetworkIcon::Wireless(strength),
        },
        Device::Wireless(None) | Device::Other => icon,
    }
}

/// The icon for the devices of all active connections.
pub fn network_icon(devices: &Vec<Device>) -> (icon: NetworkIcon)
    ensures
        icon_for(icon, devices@),
{
    let mut icon = NetworkIcon::Disconnected;
    for i in 0..devices.len()
        invariant
            icon_for(icon, devices@.take(i as int)),
    {
        let ghost before = devices@.take(i as int);
        let ghost after = devices@.take(i as int + 1);
        let device = devices[i];
        let ghost earlier = icon;
        icon = with_device(icon, device);
        proof {
            assert(after == before.push(device));
            assert(after[i as int] == device);
            assert forall|j: int| 0 <= j < before.len() implies after[j] == before[j] by {}
            if let NetworkIcon::Wireless(strength) = earlier {
                let j = choose|j: int|
                    0 <= j < before.len() && #[trigger] before[j] == Device::Wireless(
                        Some(strength),
                    );
                assert(after[j] == Device::Wireless(Some(strength)));
            }
            if any_wired(before) {
                let j = choose|j: int| 0 <= j < before.len() && #[trigger] before[j] == Device::Wired;
                assert(after[j] == Device::Wired);
            }
            if any_wired(after) && device != Device::Wired {
                let j = choose|j: int| 0 <= j < after.len() && #[trigger] after[j] == Device::Wired;
                assert(before[j] == Device::Wired);
            }
            assert(icon_for(icon, after));
        }
    }
    proof {
        assert(devices@.take(devices@.len() as int) == devices@);
    }
    icon
}

/// There is only one icon for the devices, in whatever order they are seen.
pub proof fn law_icon_is_unique(a: NetworkIcon, b: NetworkIcon, devices: Seq<Device>)
    requires
        icon_for(a, devices),
        icon_for(b, devices),
    ensures
        a == b,
{
    if let NetworkIcon::Wireless(strength) = a {
        let i = choose|i: int|
            0 <= i < devices.len() && #[trigger] devices[i] == Device::Wireless(Some(strength));
        assert(devices[i] == Device::Wireless(Some(strength)));
    }
    if let NetworkIcon::Wireless(strength) = b {
        let i = choose|i: int|
            0 <= i < devices.len() && #[trigger] devices[i] == Device::Wireless(Some(strength));
        assert(devices[i] == Device::Wireless(Some(strength)));
    }
}

}
