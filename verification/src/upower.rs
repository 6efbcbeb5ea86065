//! What the battery tells.
use vstd::prelude::*;

verus! {

/// What a power device is.
#[derive(Clone, Copy, Debug, PartialEq, Eq, Structural)]
pub enum BatteryType {
    Battery,
    Other,
}

/// What a battery is doing.
#[derive(Clone, Copy, Debug, PartialEq, Eq, Structural)]
pub enum BatteryState {
    Discharging,
    FullyCharged,
    Other,
}

/// A device is a battery that powers the machine.
pub open spec fn is_battery(kind: BatteryType, power_supply: bool) -> bool {
    kind == BatteryType::Battery && power_supply
}

/// The machine runs on the battery.
pub open spec fn is_draining(state: BatteryState) -> bool {
    state == BatteryState::Discharging
}

/// The battery says that it is full.
pub open spec fn is_full(state: BatteryState) -> bool {
    state == BatteryState::FullyCharged
}

/// Whether a device is a battery that powers the machine. Nothing is shown of any other.
pub fn has_battery(kind: BatteryType, power_supply: bool) -> (yes: bool)
    ensures
        yes == is_battery(kind, power_supply),
{
    match kind {
        BatteryType::Battery => power_supply,
        BatteryType::Other => false,
    }
}

/// Whether the machine runs on the battery.
pub fn on_battery(state: BatteryState) -> (yes: bool)
    ensures
        yes == is_draining(state),
{
    match state {
        BatteryState::Discharging => true,
        _ => false,
    }
}

/// Whether a battery counts as full whatever its charge: it says so.
pub fn counts_as_full(state: BatteryState) -> (yes: bool)
    ensures
        yes == is_full(state),
{
    match state {
        BatteryState::FullyCharged => true,
        _ => false,
    }
}

}
