//! Battery and charger facts for the on-screen status indicator.

use crate::sy6970::{ChargeStatus, SystemStatus};
use vstd::prelude::*;

verus! {

/// Battery voltage at or above which a pack counts as connected at boot.
///
/// The SY6970 lacks a battery-present bit; this board-specific threshold
/// distinguishes the disconnected battery input from a one-cell pack.
pub const BATTERY_PRESENT_THRESHOLD_MV: u16 = 3_000;

/// Battery voltage above which a pack that is not charging is shown full.
pub const FULL_BATTERY_THRESHOLD_MV: u16 = 4_000;

/// Errors returned by the unified charger API.
#[derive(Debug, Clone, Copy, PartialEq, Eq, Structural)]
pub struct PmuError;

/// Power facts suitable for the compact on-screen status indicator.
///
/// USB presence comes from SY6970 `REG11.BUS_GD`, while the charge phase
/// comes from `REG0B.CHRG_STAT`.
#[derive(Debug, Clone, Copy, PartialEq, Eq)]
pub struct PowerStatus {
    /// Whether SY6970 reports a physical external USB input.
    pub usb_present: bool,
    /// Whether the PMU reports an active pre-charge or fast-charge phase.
    pub charging: bool,
    /// Whether the compact indicator should present a static full battery.
    pub charge_complete: bool,
    /// Voltage-derived state of charge, or `None` when the board has no
    /// usable battery input.
    pub battery_percentage: Option<u8>,
}

/// The display level of a battery voltage, in the five voltage bands of the
/// status bar (these are display levels, not a state-of-charge estimate).
pub open spec fn spec_battery_percentage(millivolts: u16) -> u8 {
    if millivolts <= 3_200 {
        0
    } else if millivolts <= 3_400 {
        20
    } else if millivolts <= 3_600 {
        40
    } else if millivolts <= 3_800 {
        60
    } else if millivolts <= 4_000 {
        80
    } else {
        100
    }
}

/// Whether a battery voltage reading is above the full threshold.
pub open spec fn above_full_threshold(battery_voltage_mv: Option<u16>) -> bool {
    match battery_voltage_mv {
        Some(mv) => mv > FULL_BATTERY_THRESHOLD_MV,
        None => false,
    }
}

/// Maps a battery voltage to its display level.
pub fn battery_percentage_from_voltage(millivolts: u16) -> (percentage: u8)
    ensures
        percentage == spec_battery_percentage(millivolts),
        percentage <= 100,
{
    if millivolts <= 3_200 {
        0
    } else if millivolts <= 3_400 {
        20
    } else if millivolts <= 3_600 {
        40
    } else if millivolts <= 3_800 {
        60
    } else if millivolts <= 4_000 {
        80
    } else {
        100
    }
}

/// The display level never decreases as the voltage rises.
pub proof fn lemma_battery_percentage_monotonic(low: u16, high: u16)
    requires
        low <= high,
    ensures
        spec_battery_percentage(low) <= spec_battery_percentage(high),
{
}

/// Whether the settled battery voltage read at boot shows a connected pack.
pub fn battery_present_from_voltage(millivolts: u16) -> (present: bool)
    ensures
        present == (millivolts >= BATTERY_PRESENT_THRESHOLD_MV),
{
    millivolts >= BATTERY_PRESENT_THRESHOLD_MV
}

/// The power facts for the indicator, from the status registers, the battery
/// voltage (read only when a pack was present at boot) and the boot-time
/// battery decision.
///
/// Without a pack at boot nothing is charging or complete. Otherwise the
/// charge phase decides charging, and the pack is complete when the PMU says
/// so or, while not charging, its voltage is above the full threshold.
pub fn power_status_from_readings(
    system_status: SystemStatus,
    battery_voltage_mv: Option<u16>,
    battery_present_at_boot: bool,
) -> (status: PowerStatus)
    ensures
        status.usb_present == system_status.usb_present,
        status.charging == (battery_present_at_boot && (system_status.charge_status
            == ChargeStatus::PreCharge || system_status.charge_status == ChargeStatus::FastCharge)),
        status.charge_complete == (battery_present_at_boot && (system_status.charge_status
            == ChargeStatus::Done || (!status.charging && above_full_threshold(battery_voltage_mv)))),
        status.battery_percentage == match battery_voltage_mv {
            Some(mv) => Some(spec_battery_percentage(mv)),
            None => None::<u8>,
        },
{
    let charging = battery_present_at_boot && system_status.charge_status.is_charging();
    let above_full = match battery_voltage_mv {
        Some(millivolts) => millivolts > FULL_BATTERY_THRESHOLD_MV,
        None => false,
    };
    let done = match system_status.charge_status {
        ChargeStatus::Done => true,
        _ => false,
    };
    let charge_complete = battery_present_at_boot && (done || (!charging && above_full));
    let battery_percentage = match battery_voltage_mv {
        Some(millivolts) => Some(battery_percentage_from_voltage(millivolts)),
        None => None,
    };
    PowerStatus {
        usb_present: system_status.usb_present,
        charging,
        charge_complete,
        battery_percentage,
    }
}

/// Charging and a complete charge are never shown together.
pub proof fn lemma_charging_excludes_complete(
    system_status: SystemStatus,
    battery_voltage_mv: Option<u16>,
    battery_present_at_boot: bool,
    status: PowerStatus,
)
    requires
        status.charging == (battery_present_at_boot && (system_status.charge_status
            == ChargeStatus::PreCharge || system_status.charge_status == ChargeStatus::FastCharge)),
        status.charge_complete == (battery_present_at_boot && (system_status.charge_status
            == ChargeStatus::Done || (!status.charging && above_full_threshold(battery_voltage_mv)))),
    ensures
        !(status.charging && status.charge_complete),
{
}

/// Power facts supplied by board firmware to the user interface.
#[derive(Debug, Clone, Copy, PartialEq, Eq)]
pub struct BatteryState {
    /// Whether an external USB input is connected to the PMU.
    pub usb_present: bool,
    /// A voltage-derived battery percentage. `None` means no usable battery
    /// was detected, such as when the physical battery switch is off.
    pub percentage: Option<u8>,
    /// Whether the PMU is actively pre-charging or fast-charging the battery.
    pub charging: bool,
    /// Whether the compact indicator should present a static full battery.
    /// This is mutually exclusive with [`Self::charging`].
    pub charge_complete: bool,
}

/// A failure returned while creating or showing the user interface.
#[derive(Debug, Clone, Copy, PartialEq, Eq, Structural)]
pub struct UiError;

/// The values painted into the compact battery indicator.
#[derive(Debug, Clone, Copy, PartialEq, Eq, Structural)]
pub struct BatteryIndicator {
    pub usb_present: bool,
    pub battery_present: bool,
    pub percentage: i32,
    pub charging: bool,
    pub charge_complete: bool,
}

/// The indicator for board-supplied power facts: the battery is shown when a
/// percentage is known, and the percentage is capped at 100 (0 when absent).
pub fn battery_indicator(state: BatteryState) -> (indicator: BatteryIndicator)
    ensures
        indicator.usb_present == state.usb_present,
        indicator.battery_present == (state.percentage is Some),
        indicator.percentage == match state.percentage {
            Some(p) => if p <= 100 {
                p as i32
            } else {
                100
            },
            None => 0,
        },
        indicator.charging == state.charging,
        indicator.charge_complete == state.charge_complete,
{
    let percentage = match state.percentage {
        Some(p) => if p <= 100 {
            p
        } else {
            100
        },
        None => 0,
    };
    BatteryIndicator {
        usb_present: state.usb_present,
        battery_present: state.percentage.is_some(),
        percentage: percentage as i32,
        charging: state.charging,
        charge_complete: state.charge_complete,
    }
}

/// The indicator while no PMU reading is available: everything hidden.
pub fn unavailable_battery_indicator() -> (indicator: BatteryIndicator)
    ensures
        indicator == (BatteryIndicator {
            usb_present: false,
            battery_present: false,
            percentage: 0,
            charging: false,
            charge_complete: false,
        }),
{
    BatteryIndicator {
        usb_present: false,
        battery_present: false,
        percentage: 0,
        charging: false,
        charge_complete: false,
    }
}

/// The power facts painted into the user interface.
#[derive(Debug, Clone, Copy, PartialEq, Eq)]
pub enum PresentedPowerState {
    Available(BatteryState),
    Unavailable,
}

/// The user-interface power facts for one PMU reading.
pub fn battery_state_from_power_status(status: PowerStatus) -> (state: BatteryState)
    ensures
        state == (BatteryState {
            usb_present: status.usb_present,
            percentage: status.battery_percentage,
            charging: status.charging,
            charge_complete: status.charge_complete,
        }),
{
    BatteryState {
        usb_present: status.usb_present,
        percentage: status.battery_percentage,
        charging: status.charging,
        charge_complete: status.charge_complete,
    }
}

/// Whether two battery states are equal, field by field.
fn battery_state_eq(a: &BatteryState, b: &BatteryState) -> (equal: bool)
    ensures
        equal == (a == b),
{
    let same_percentage = match (a.percentage, b.percentage) {
        (Some(x), Some(y)) => x == y,
        (None, None) => true,
        _ => false,
    };
    a.usb_present == b.usb_present && same_percentage && a.charging == b.charging
        && a.charge_complete == b.charge_complete
}

/// One status refresh: the presentation for the reading (`None` when the
/// PMU read failed), and whether it differs from the presentation painted
/// last and so must be repainted.
pub fn refresh_power_presentation(
    last: Option<PresentedPowerState>,
    reading: Option<PowerStatus>,
) -> (result: (PresentedPowerState, bool))
    ensures
        result.0 == match reading {
            Some(status) => PresentedPowerState::Available(
                BatteryState {
                    usb_present: status.usb_present,
                    percentage: status.battery_percentage,
                    charging: status.charging,
                    charge_complete: status.charge_complete,
                },
            ),
            None => PresentedPowerState::Unavailable,
        },
        result.1 == (last != Some(result.0)),
{
    let next = match reading {
        Some(status) => PresentedPowerState::Available(battery_state_from_power_status(status)),
        None => PresentedPowerState::Unavailable,
    };
    let repaint = match (&last, &next) {
        (Some(PresentedPowerState::Available(a)), PresentedPowerState::Available(b)) => !battery_state_eq(a, b),
        (Some(PresentedPowerState::Unavailable), PresentedPowerState::Unavailable) => false,
        _ => true,
    };
    (next, repaint)
}

/// Word indices for a random 121-bit BIP39 prefix: the low eleven bits of
/// eleven hardware random numbers.
pub fn word_indices_from_random(random: [u32; 11]) -> (indices: [u16; 11])
    ensures
        forall|i: int| 0 <= i < 11 ==> #[trigger] indices@[i] == random@[i] % 2048,
{
    let mut indices = [0u16; 11];
    let mut i: usize = 0;
    while i < 11
        invariant
            i <= 11,
            forall|j: int| 0 <= j < i ==> #[trigger] indices@[j] == random@[j] % 2048,
        decreases 11 - i,
    {
        indices[i] = (random[i] % 2048) as u16;
        i = i + 1;
    }
    indices
}

} // verus!
