use bip39_last_word::cst226se::{
    HOME_BUTTON_MARKER, RAW_TOUCH_REPORT_LEN, REPORT_VALID_MARKER, TOUCH_STATUS_PRESSED,
    TouchPoint, TouchSensorError, firmware_check_outcome, has_valid_firmware_checkcode,
    is_touch_available, is_touch_pressed, parse_first_point, should_acknowledge_empty_report,
};
use bip39_last_word::power::battery_percentage_from_voltage;
use bip39_last_word::sy6970::{
    BUS_GOOD, ChargeStatus, battery_voltage_from_register, charge_status_from_register,
    system_status_from_register,
};
use bip39_last_word::touch::{
    DisplayPosition, PointerAction, TouchEvent, display_position, touch_point_from_report,
    touch_step,
};

#[test]
fn parses_the_first_touch_point() {
    let mut report = [0u8; RAW_TOUCH_REPORT_LEN];
    report[0] = 0x23;
    report[1] = 0x12;
    report[2] = 0x34;
    report[3] = 0x56;
    report[4] = 0x78;
    report[5] = 0x01;
    report[6] = REPORT_VALID_MARKER;

    assert_eq!(
        parse_first_point(&report),
        Some(TouchPoint { points: 1, id: 2, status: 3, x: 0x125, y: 0x346, pressure: 0x78 })
    );
}

#[test]
fn ignores_home_button_reports() {
    let mut report = [0u8; RAW_TOUCH_REPORT_LEN];
    report[5] = HOME_BUTTON_MARKER;
    report[6] = REPORT_VALID_MARKER;

    assert_eq!(parse_first_point(&report), None);
}

#[test]
fn parses_a_zero_id_lift_record_for_the_input_layer() {
    let mut report = [0u8; RAW_TOUCH_REPORT_LEN];
    report[0] = 0;
    report[1] = 0x12;
    report[2] = 0x34;
    report[3] = 0x56;
    report[5] = 0x01;
    report[6] = REPORT_VALID_MARKER;

    assert_eq!(
        parse_first_point(&report),
        Some(TouchPoint { points: 1, id: 0, status: 0, x: 0x125, y: 0x346, pressure: 0 })
    );
    assert!(!should_acknowledge_empty_report(&report));
}

#[test]
fn recognizes_the_controller_firmware_checkcode() {
    assert!(has_valid_firmware_checkcode([0x12, 0x34, 0xCA, 0xCA]));
    assert!(!has_valid_firmware_checkcode([0x12, 0x34, 0x00, 0xCA]));
}

#[test]
fn distinguishes_pressed_and_lifted_point_records() {
    assert!(is_touch_pressed(TOUCH_STATUS_PRESSED));
    assert!(!is_touch_pressed(0));
    assert!(!is_touch_pressed(0x07));
}

#[test]
fn decodes_battery_voltage_adc_register() {
    assert_eq!(battery_voltage_from_register(0x00), 0);
    assert_eq!(battery_voltage_from_register(0x01), 2324);
    assert_eq!(battery_voltage_from_register(0xFF), 4844);
}

#[test]
fn decodes_charge_status_bits() {
    assert_eq!(charge_status_from_register(0x00), ChargeStatus::NotCharging);
    assert_eq!(charge_status_from_register(0x08), ChargeStatus::PreCharge);
    assert_eq!(charge_status_from_register(0x10), ChargeStatus::FastCharge);
    assert_eq!(charge_status_from_register(0x18), ChargeStatus::Done);
}

#[test]
fn decodes_live_bus_good_status() {
    // Adapter classification alone is not physical cable detection.
    assert!(!system_status_from_register(0xA4, 0x00).usb_present);
    assert!(system_status_from_register(0x00, BUS_GOOD).usb_present);
    assert!(system_status_from_register(0xE4, BUS_GOOD).usb_present);
}

#[test]
fn charge_status_reports_only_active_charge_phases() {
    assert!(!ChargeStatus::NotCharging.is_charging());
    assert!(ChargeStatus::PreCharge.is_charging());
    assert!(ChargeStatus::FastCharge.is_charging());
    assert!(!ChargeStatus::Done.is_charging());
}

#[test]
fn uses_jades_five_battery_voltage_bands() {
    assert_eq!(battery_percentage_from_voltage(3_200), 0);
    assert_eq!(battery_percentage_from_voltage(3_201), 20);
    assert_eq!(battery_percentage_from_voltage(3_400), 20);
    assert_eq!(battery_percentage_from_voltage(3_401), 40);
    assert_eq!(battery_percentage_from_voltage(3_600), 40);
    assert_eq!(battery_percentage_from_voltage(3_601), 60);
    assert_eq!(battery_percentage_from_voltage(3_800), 60);
    assert_eq!(battery_percentage_from_voltage(3_801), 80);
    assert_eq!(battery_percentage_from_voltage(4_000), 80);
    assert_eq!(battery_percentage_from_voltage(4_001), 100);
}

#[test]
fn interrupt_pin_low_means_touch_data() {
    assert_eq!(is_touch_available::<()>(Ok(true)), Ok(true));
    assert_eq!(is_touch_available::<()>(Ok(false)), Ok(false));
    assert_eq!(is_touch_available(Err(7u8)), Err(TouchSensorError::PinError));
}

#[test]
fn power_good_bit_is_reported() {
    assert!(system_status_from_register(0x04, 0x00).input_power_good);
    assert!(!system_status_from_register(0x00, 0x00).input_power_good);
}

#[test]
fn a_press_is_released_where_it_started() {
    let contact = bip39_last_word::touch::TouchPoint {
        points: 1,
        event: TouchEvent::Contact,
        x: 10,
        y: 100,
    };
    let (held, action) = touch_step(None, contact);
    let start = display_position(10, 100);
    assert_eq!(start, DisplayPosition { x: 100, y: 212 });
    assert_eq!(action, PointerAction::Press(start));
    let moved = bip39_last_word::touch::TouchPoint { x: 20, y: 120, ..contact };
    let (held, action) = touch_step(held, moved);
    assert_eq!(action, PointerAction::Nothing);
    let lift = bip39_last_word::touch::TouchPoint {
        points: 0,
        event: TouchEvent::Up,
        x: 0,
        y: 0,
    };
    let (held, action) = touch_step(held, lift);
    assert_eq!(held, None);
    assert_eq!(action, PointerAction::Release(start));
}

#[test]
fn a_lift_record_is_not_read_as_a_press() {
    let record = |status: u8| TouchPoint { points: 1, id: 0, status, x: 30, y: 40, pressure: 0 };
    let lift = touch_point_from_report(Some(record(0)));
    assert_eq!(lift.event, TouchEvent::Up);
    assert_eq!((lift.x, lift.y), (30, 40));
    let press = touch_point_from_report(Some(record(TOUCH_STATUS_PRESSED)));
    assert_eq!(press.event, TouchEvent::Contact);
    assert_eq!(touch_point_from_report(None).event, TouchEvent::Up);
}

#[test]
fn firmware_check_reports_the_read_error_first() {
    let valid = [0x00, 0x00, 0xCA, 0xCA];
    assert_eq!(firmware_check_outcome(Ok(valid), Ok(())), Ok(()));
    assert_eq!(
        firmware_check_outcome(Ok([0, 0, 0x12, 0x34]), Ok(())),
        Err(TouchSensorError::InvalidDevice)
    );
    assert_eq!(
        firmware_check_outcome(Err(TouchSensorError::I2cError), Err(TouchSensorError::PinError)),
        Err(TouchSensorError::I2cError)
    );
    assert_eq!(
        firmware_check_outcome(Ok([0, 0, 0x12, 0x34]), Err(TouchSensorError::I2cError)),
        Err(TouchSensorError::I2cError)
    );
}
