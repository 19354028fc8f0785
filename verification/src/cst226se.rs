//! Report decoding for the Hynitron CST226SE capacitive touch controller.
//!
//! The CST226SE reports up to five touches in a 28-byte report on I2C address
//! `0x5A`. This module decodes the first touch point of a report; the bus
//! transactions live with the application.

use vstd::prelude::*;

verus! {

/// CST226SE I2C slave address.
pub const CST226SE_ADDRESS: u8 = 0x5A;

/// Size of a CST226SE touch report.
pub const RAW_TOUCH_REPORT_LEN: usize = 28;

/// Maximum number of touches represented by one report.
pub const MAX_TOUCH_POINTS: u8 = 5;

/// CST226SE point-state value meaning an active finger contact.
///
/// The controller also sends a point record for a lift; its state is any
/// value other than this one and must not be interpreted as another press.
pub const TOUCH_STATUS_PRESSED: u8 = 0x06;

/// Marker byte of a valid report (byte 6).
pub const REPORT_VALID_MARKER: u8 = 0xAB;

/// Point-count byte value of a home-button report (byte 5).
pub const HOME_BUTTON_MARKER: u8 = 0x80;

/// The upper half of the firmware checkcode of a genuine controller.
pub const FIRMWARE_CHECKCODE_PREFIX: u32 = 0xCACA_0000;

/// The first touch point in a CST226SE report.
#[derive(Debug, Clone, Copy, PartialEq, Eq, Structural)]
pub struct TouchPoint {
    /// Number of active touches reported by the controller.
    pub points: u8,
    /// Controller-assigned identifier for this contact.
    pub id: u8,
    /// Controller-specific contact state.
    pub status: u8,
    /// Horizontal coordinate.
    pub x: u16,
    /// Vertical coordinate.
    pub y: u16,
    /// Contact pressure reported by the controller.
    pub pressure: u8,
}

/// Errors produced by the CST226SE driver.
#[derive(Debug, Clone, Copy, PartialEq, Eq, Structural)]
pub enum TouchSensorError {
    /// An I2C transaction failed.
    I2cError,
    /// Reading the interrupt pin or driving the reset pin failed.
    PinError,
    /// The CST226SE firmware checkcode did not match the expected value.
    InvalidDevice,
}

/// CST226SE touch controller.
///
/// `PIN` is the active-low interrupt pin, `RST` is the optional reset pin,
/// and `DELAY` supplies reset timing.
#[derive(Debug)]
pub struct CST226SE<I2C, PIN, RST, DELAY> {
    pub i2c: I2C,
    pub touch_int: PIN,
    pub rst_pin: Option<RST>,
    pub delay: DELAY,
}

impl<I2C, PIN, RST, DELAY> CST226SE<I2C, PIN, RST, DELAY> {
    /// Creates a CST226SE driver instance.
    pub fn new(i2c: I2C, touch_int: PIN, rst_pin: Option<RST>, delay: DELAY) -> (driver: Self)
        ensures
            driver.i2c == i2c,
            driver.touch_int == touch_int,
            driver.rst_pin == rst_pin,
            driver.delay == delay,
    {
        Self { i2c, touch_int, rst_pin, delay }
    }
}

/// Whether touch data is waiting, from a reading of the active-low interrupt
/// pin: a low pin signals data, and a failed reading is a pin error.
pub fn is_touch_available<E>(interrupt_is_low: Result<bool, E>) -> (available: Result<
    bool,
    TouchSensorError,
>)
    ensures
        available == match interrupt_is_low {
            Ok(low) => Ok::<bool, TouchSensorError>(low),
            Err(_) => Err::<bool, TouchSensorError>(TouchSensorError::PinError),
        },
{
    match interrupt_is_low {
        Ok(low) => Ok(low),
        Err(_) => Err(TouchSensorError::PinError),
    }
}

/// Whether the report is a valid touch report at all: it carries the valid
/// marker, its first byte is not the marker, and it is not a home-button
/// report.
pub open spec fn is_touch_report(report: Seq<u8>) -> bool {
    &&& report[6] == REPORT_VALID_MARKER
    &&& report[0] != REPORT_VALID_MARKER
    &&& report[5] != HOME_BUTTON_MARKER
}

/// The point count of a report (the low seven bits of byte 5).
pub open spec fn report_points(report: Seq<u8>) -> u8 {
    (report[5] % 128) as u8
}

/// The first point that a valid report with one to five points describes.
pub open spec fn spec_first_point(report: Seq<u8>) -> TouchPoint {
    TouchPoint {
        points: report_points(report),
        id: (report[0] / 16) as u8,
        status: (report[0] % 16) as u8,
        x: (report[1] * 16 + report[3] / 16) as u16,
        y: (report[2] * 16 + report[3] % 16) as u16,
        pressure: report[4],
    }
}

/// Decodes the first touch point of a report.
///
/// Invalid reports, home-button reports and reports whose point count is not
/// between one and five give `None`.
pub fn parse_first_point(report: &[u8; RAW_TOUCH_REPORT_LEN]) -> (point: Option<TouchPoint>)
    ensures
        point == (if is_touch_report(report@) && 1 <= report_points(report@) <= MAX_TOUCH_POINTS {
            Some(spec_first_point(report@))
        } else {
            None
        }),
{
    if report[6] != REPORT_VALID_MARKER || report[0] == REPORT_VALID_MARKER || report[5]
        == HOME_BUTTON_MARKER {
        return None;
    }
    let points = report[5] % 128;
    if points == 0 || points > MAX_TOUCH_POINTS {
        return None;
    }
    Some(
        TouchPoint {
            points,
            id: report[0] / 16,
            status: report[0] % 16,
            x: (report[1] as u16) * 16 + (report[3] / 16) as u16,
            y: (report[2] as u16) * 16 + (report[3] % 16) as u16,
            pressure: report[4],
        },
    )
}

/// The little-endian value of four bytes.
pub open spec fn le_u32(bytes: Seq<u8>) -> nat {
    (bytes[0] + bytes[1] * 0x100 + bytes[2] * 0x1_0000 + bytes[3] * 0x100_0000) as nat
}

/// Whether the firmware checkcode read at command address `D1:FC` belongs to
/// a CST226SE: its upper 16 bits (little-endian) are `0xCACA`.
pub fn has_valid_firmware_checkcode(checkcode: [u8; 4]) -> (valid: bool)
    ensures
        valid == (le_u32(checkcode@) / 0x1_0000 == FIRMWARE_CHECKCODE_PREFIX / 0x1_0000),
{
    let value: u32 = checkcode[0] as u32 + (checkcode[1] as u32) * 0x100 + (checkcode[2] as u32)
        * 0x1_0000 + (checkcode[3] as u32) * 0x100_0000;
    value / 0x1_0000 == FIRMWARE_CHECKCODE_PREFIX / 0x1_0000
}

/// The outcome of the firmware check in `begin`: the checkcode read and the
/// write that leaves command mode both happen, then the read's error comes
/// first, the exit's next, and a checkcode that is no CST226SE's makes the
/// device invalid.
pub fn firmware_check_outcome(
    checkcode_read: Result<[u8; 4], TouchSensorError>,
    command_mode_exit: Result<(), TouchSensorError>,
) -> (outcome: Result<(), TouchSensorError>)
    ensures
        outcome == match checkcode_read {
            Err(e) => Err::<(), TouchSensorError>(e),
            Ok(checkcode) => match command_mode_exit {
                Err(e) => Err::<(), TouchSensorError>(e),
                Ok(()) => if le_u32(checkcode@) / 0x1_0000 == FIRMWARE_CHECKCODE_PREFIX / 0x1_0000 {
                    Ok::<(), TouchSensorError>(())
                } else {
                    Err::<(), TouchSensorError>(TouchSensorError::InvalidDevice)
                },
            },
        },
{
    let checkcode = match checkcode_read {
        Ok(checkcode) => checkcode,
        Err(e) => return Err(e),
    };
    match command_mode_exit {
        Ok(()) => {},
        Err(e) => return Err(e),
    }
    if has_valid_firmware_checkcode(checkcode) {
        Ok(())
    } else {
        Err(TouchSensorError::InvalidDevice)
    }
}

/// Returns whether a point record represents an active finger contact.
pub fn is_touch_pressed(status: u8) -> (pressed: bool)
    ensures
        pressed == (status == TOUCH_STATUS_PRESSED),
{
    status == TOUCH_STATUS_PRESSED
}

/// Whether a report must be acknowledged so the controller can publish the
/// next one: a valid report whose point count is zero or above five.
pub fn should_acknowledge_empty_report(report: &[u8; RAW_TOUCH_REPORT_LEN]) -> (acknowledge: bool)
    ensures
        acknowledge == (is_touch_report(report@) && (report_points(report@) == 0 || report_points(
            report@,
        ) > MAX_TOUCH_POINTS)),
{
    if report[6] != REPORT_VALID_MARKER || report[0] == REPORT_VALID_MARKER || report[5]
        == HOME_BUTTON_MARKER {
        return false;
    }
    let points = report[5] % 128;
    points == 0 || points > MAX_TOUCH_POINTS
}

/// A valid report is either decoded to a point or acknowledged as empty,
/// never both; an invalid report gets neither.
pub proof fn lemma_report_is_decoded_or_acknowledged(report: Seq<u8>)
    requires
        report.len() == RAW_TOUCH_REPORT_LEN,
    ensures
        is_touch_report(report) ==> ((1 <= report_points(report) <= MAX_TOUCH_POINTS) != (
        report_points(report) == 0 || report_points(report) > MAX_TOUCH_POINTS)),
{
}

} // verus!
