//! Register decoding for the SY6970 single-cell battery charger and
//! power-path IC.
//!
//! The LilyGO T-Display-S3 Pro exposes the SY6970 on I2C address `0x6A`.
//! This module decodes register values and decides the read-modify-write
//! updates; the bus transactions live with the application.

use vstd::prelude::*;

verus! {

/// SY6970 I2C slave address.
pub const SY6970_ADDRESS: u8 = 0x6A;

/// Input source control register (`REG00`).
pub const REG_INPUT_SOURCE_CONTROL: u8 = 0x00;
/// ADC control register (`REG02`).
pub const REG_ADC_CONTROL: u8 = 0x02;
/// Power-on configuration register (`REG03`).
pub const REG_POWER_ON_CONFIG: u8 = 0x03;
/// Charge timer control register (`REG07`).
pub const REG_CHARGE_TIMER_CONTROL: u8 = 0x07;
/// System status register (`REG0B`).
pub const REG_SYSTEM_STATUS: u8 = 0x0B;
/// Battery voltage ADC register (`REG0E`).
pub const REG_BATTERY_VOLTAGE: u8 = 0x0E;
/// Bus voltage register (`REG11`).
pub const REG_BUS_VOLTAGE: u8 = 0x11;

/// `REG00.EN_HIZ`.
pub const EN_HIZ: u8 = 0x80;
/// `REG02.CONV_START`.
pub const CONV_START: u8 = 0x80;
/// `REG02.CONV_RATE`.
pub const CONV_RATE: u8 = 0x40;
/// `REG03.CHG_CONFIG`.
pub const CHARGE_ENABLE: u8 = 0x10;
/// `REG07.WATCHDOG`.
pub const WATCHDOG_TIMER_MASK: u8 = 0x30;
/// `REG0B.PG_STAT`: the input source is power-good.
pub const POWER_GOOD: u8 = 0x04;
/// `REG11.BUS_GD`: a physical input is attached.
pub const BUS_GOOD: u8 = 0x80;
/// Base of the battery voltage ADC scale, in millivolts.
pub const BATTERY_VOLTAGE_BASE_MV: u16 = 2304;
/// Step of the battery voltage ADC scale, in millivolts.
pub const BATTERY_VOLTAGE_STEP_MV: u16 = 20;

/// The charger phase reported in the SY6970 system-status register.
#[derive(Debug, Clone, Copy, PartialEq, Eq, Structural)]
pub enum ChargeStatus {
    /// No charging operation is active.
    NotCharging,
    /// The battery is being charged in the pre-charge phase.
    PreCharge,
    /// The battery is being charged in the fast-charge phase.
    FastCharge,
    /// Charging has completed.
    Done,
}

impl ChargeStatus {
    /// Returns whether the charger is actively charging the battery.
    pub fn is_charging(self) -> (charging: bool)
        ensures
            charging == (self == ChargeStatus::PreCharge || self == ChargeStatus::FastCharge),
    {
        match self {
            ChargeStatus::PreCharge | ChargeStatus::FastCharge => true,
            _ => false,
        }
    }
}

/// Input and charge facts reported by the SY6970 status registers.
///
/// `usb_present` describes a physically attached USB input rather than an
/// OTG output. The separate `input_power_good` bit indicates that the
/// detected input is currently usable by the PMU.
#[derive(Debug, Clone, Copy, PartialEq, Eq, Structural)]
pub struct SystemStatus {
    /// A USB power source is connected to the board.
    pub usb_present: bool,
    /// The connected input source is currently power-good.
    pub input_power_good: bool,
    /// The current battery charge phase.
    pub charge_status: ChargeStatus,
}

/// Errors produced by the SY6970 driver.
#[derive(Debug, Clone, Copy, PartialEq, Eq, Structural)]
pub enum Sy6970Error {
    /// An I2C transaction failed.
    I2cError,
}

/// SY6970 charger and power-path controller.
#[derive(Debug)]
pub struct SY6970<I2C> {
    pub i2c: I2C,
}

impl<I2C> SY6970<I2C> {
    /// Creates an SY6970 driver using the supplied I2C bus.
    pub fn new(i2c: I2C) -> (driver: Self)
        ensures
            driver.i2c == i2c,
    {
        Self { i2c }
    }
}

/// The battery voltage in millivolts for a `REG0E` value: `2304 + 20 * code`
/// for the seven-bit ADC code, and 0 when the code is zero (no usable
/// battery reading).
pub open spec fn spec_battery_voltage(value: u8) -> nat {
    let code = value % 128;
    if code == 0 {
        0
    } else {
        (2304 + 20 * code) as nat
    }
}

/// Decodes the battery-voltage ADC register.
pub fn battery_voltage_from_register(value: u8) -> (millivolts: u16)
    ensures
        millivolts == spec_battery_voltage(value),
{
    let code = value % 128;
    if code == 0 {
        0
    } else {
        BATTERY_VOLTAGE_BASE_MV + (code as u16) * BATTERY_VOLTAGE_STEP_MV
    }
}

/// The charge phase in bits 4:3 of `REG0B`.
pub open spec fn spec_charge_status(value: u8) -> ChargeStatus {
    let field = (value / 8) % 4;
    if field == 0 {
        ChargeStatus::NotCharging
    } else if field == 1 {
        ChargeStatus::PreCharge
    } else if field == 2 {
        ChargeStatus::FastCharge
    } else {
        ChargeStatus::Done
    }
}

/// Decodes the charge-status field of the system-status register.
pub fn charge_status_from_register(value: u8) -> (status: ChargeStatus)
    ensures
        status == spec_charge_status(value),
{
    let field = (value / 8) % 4;
    if field == 0 {
        ChargeStatus::NotCharging
    } else if field == 1 {
        ChargeStatus::PreCharge
    } else if field == 2 {
        ChargeStatus::FastCharge
    } else {
        ChargeStatus::Done
    }
}

/// Decodes the status facts from `REG0B` and `REG11`.
///
/// USB presence comes from `REG11.BUS_GD`, the physical-input signal; the
/// adapter classification in `REG0B` can stay latched after unplugging.
pub fn system_status_from_register(system: u8, bus_voltage: u8) -> (status: SystemStatus)
    ensures
        status.usb_present == (bus_voltage >= 128),
        status.input_power_good == ((system / 4) % 2 == 1),
        status.charge_status == spec_charge_status(system),
{
    SystemStatus {
        usb_present: bus_voltage >= BUS_GOOD,
        input_power_good: (system / 4) % 2 == 1,
        charge_status: charge_status_from_register(system),
    }
}

/// One read-modify-write update of a register: the register, the bits to
/// clear and the bits to set.
#[derive(Debug, Clone, Copy, PartialEq, Eq, Structural)]
pub struct RegisterUpdate {
    pub register: u8,
    pub clear_mask: u8,
    pub set_mask: u8,
}

/// The new value of a register after an update: selected bits cleared, then
/// selected bits set, the others unchanged.
pub fn updated_register_value(value: u8, clear_mask: u8, set_mask: u8) -> (updated: u8)
    ensures
        updated == ((value & !clear_mask) | set_mask),
{
    (value & !clear_mask) | set_mask
}

/// The updates that initialize the PMU without changing its factory charge
/// limits: leave HIZ mode, start continuous ADC conversion, and disable the
/// watchdog timer.
pub fn init_register_updates() -> (updates: [RegisterUpdate; 3])
    ensures
        updates@ == seq![
            RegisterUpdate { register: REG_INPUT_SOURCE_CONTROL, clear_mask: EN_HIZ, set_mask: 0 },
            RegisterUpdate { register: REG_ADC_CONTROL, clear_mask: 0, set_mask: 0xC0 },
            RegisterUpdate {
                register: REG_CHARGE_TIMER_CONTROL,
                clear_mask: WATCHDOG_TIMER_MASK,
                set_mask: 0,
            },
        ],
{
    let updates = [
        RegisterUpdate { register: REG_INPUT_SOURCE_CONTROL, clear_mask: EN_HIZ, set_mask: 0 },
        RegisterUpdate { register: REG_ADC_CONTROL, clear_mask: 0, set_mask: CONV_START | CONV_RATE },
        RegisterUpdate {
            register: REG_CHARGE_TIMER_CONTROL,
            clear_mask: WATCHDOG_TIMER_MASK,
            set_mask: 0,
        },
    ];
    proof {
        assert(CONV_START | CONV_RATE == 0xC0u8) by (bit_vector);
        assert(updates@ =~= seq![
            RegisterUpdate { register: REG_INPUT_SOURCE_CONTROL, clear_mask: EN_HIZ, set_mask: 0 },
            RegisterUpdate { register: REG_ADC_CONTROL, clear_mask: 0, set_mask: 0xC0 },
            RegisterUpdate {
                register: REG_CHARGE_TIMER_CONTROL,
                clear_mask: WATCHDOG_TIMER_MASK,
                set_mask: 0,
            },
        ]);
    }
    updates
}

/// The update that sets or clears the charge-enable bit of `REG03`.
pub fn charge_enable_update(enabled: bool) -> (update: RegisterUpdate)
    ensures
        update.register == REG_POWER_ON_CONFIG,
        enabled ==> update.clear_mask == 0 && update.set_mask == CHARGE_ENABLE,
        !enabled ==> update.clear_mask == CHARGE_ENABLE && update.set_mask == 0,
{
    if enabled {
        RegisterUpdate { register: REG_POWER_ON_CONFIG, clear_mask: 0, set_mask: CHARGE_ENABLE }
    } else {
        RegisterUpdate { register: REG_POWER_ON_CONFIG, clear_mask: CHARGE_ENABLE, set_mask: 0 }
    }
}

/// The charge status is read from bits 4 and 3 of the register alone:
/// `00` not charging, `01` pre-charge, `10` fast charge, `11` done.
pub proof fn lemma_charge_status_reads_bits_4_3(value: u8)
    ensures
        spec_charge_status(value) == spec_charge_status(value & 0x18),
        value & 0x18 == 0x00 ==> spec_charge_status(value) == ChargeStatus::NotCharging,
        value & 0x18 == 0x08 ==> spec_charge_status(value) == ChargeStatus::PreCharge,
        value & 0x18 == 0x10 ==> spec_charge_status(value) == ChargeStatus::FastCharge,
        value & 0x18 == 0x18 ==> spec_charge_status(value) == ChargeStatus::Done,
{
    let masked: u8 = value & 0x18;
    assert((value / 8) % 4 == masked / 8 && (masked / 8) % 4 == masked / 8) by (bit_vector)
        requires
            masked == value & 0x18,
    ;
}

} // verus!
