//! The power-up sequence of the T-Display-S3 Pro's ST7796U panel.
//!
//! The panel needs its vendor-specific power, timing and gamma commands; the
//! generic ST7796 setup of display drivers leaves it black.

use vstd::prelude::*;

verus! {

/// The panel's frame buffer is 320 columns wide.
pub const FRAMEBUFFER_WIDTH: u16 = 320;

/// The panel's frame buffer is 480 rows high.
pub const FRAMEBUFFER_HEIGHT: u16 = 480;

/// How long the panel is held in reset, and how long each power-up phase
/// settles, in microseconds.
pub const RESET_DURATION_US: u32 = 120_000;

/// The MIPI DCS `soft_reset` command.
pub const SOFT_RESET: u8 = 0x01;

/// The MIPI DCS `exit_sleep_mode` command.
pub const EXIT_SLEEP_MODE: u8 = 0x11;

/// The MIPI DCS `enter_normal_mode` command.
pub const ENTER_NORMAL_MODE: u8 = 0x13;

/// The MIPI DCS `exit_invert_mode` command.
pub const EXIT_INVERT_MODE: u8 = 0x20;

/// The MIPI DCS `enter_invert_mode` command.
pub const ENTER_INVERT_MODE: u8 = 0x21;

/// The MIPI DCS `set_display_on` command.
pub const SET_DISPLAY_ON: u8 = 0x29;

/// The MIPI DCS `set_address_mode` (MADCTL) command.
pub const SET_ADDRESS_MODE: u8 = 0x36;

/// The T-Display-S3 Pro's ST7796U panel model.
#[derive(Clone, Copy, Debug, PartialEq, Eq, Structural)]
pub struct TDisplayS3ProSt7796;

/// Why the panel cannot be set up.
#[derive(Clone, Copy, Debug, PartialEq, Eq, Structural)]
pub enum PanelInitError {
    /// The panel is wired to a four-line serial interface only.
    UnsupportedInterface,
}

/// One step of the power-up sequence.
pub enum PanelStep {
    /// Wait this many microseconds.
    Delay { microseconds: u32 },
    /// Send a command with its parameter bytes.
    Command { command: u8, parameters: Vec<u8> },
}

/// Whether `step` waits `microseconds`.
pub open spec fn is_delay(step: PanelStep, microseconds: u32) -> bool {
    step matches PanelStep::Delay { microseconds: us } && us == microseconds
}

/// Whether `step` sends `command` with `parameters`.
pub open spec fn is_command(step: PanelStep, command: u8, parameters: Seq<u8>) -> bool {
    step matches PanelStep::Command { command: c, parameters: p } && c == command && p@
        == parameters
}

/// The panel's positive gamma curve (command `0xE0`).
pub open spec fn positive_gamma() -> Seq<u8> {
    seq![
        0xF0u8, 0x09, 0x0B, 0x06, 0x04, 0x15, 0x2F, 0x54, 0x42, 0x3C, 0x17, 0x14, 0x18, 0x1B,
    ]
}

/// The panel's negative gamma curve (command `0xE1`).
pub open spec fn negative_gamma() -> Seq<u8> {
    seq![
        0xE0u8, 0x09, 0x0B, 0x06, 0x04, 0x03, 0x2B, 0x43, 0x42, 0x3B, 0x16, 0x14, 0x17, 0x1B,
    ]
}

/// Whether `steps` is the panel's power-up sequence for the address-mode
/// byte `madctl` and the colour inversion `invert_colors`: reset, wake, the
/// vendor's command-set unlock, pixel format, inversion and power settings,
/// the two gamma curves, the lock, and then normal mode with the display on,
/// each phase followed by a settling delay.
pub open spec fn is_power_up_sequence(steps: Seq<PanelStep>, madctl: u8, invert_colors: bool) -> bool {
    &&& steps.len() == 25
    &&& is_delay(steps[0], RESET_DURATION_US)
    &&& is_command(steps[1], SOFT_RESET, seq![])
    &&& is_delay(steps[2], RESET_DURATION_US)
    &&& is_command(steps[3], EXIT_SLEEP_MODE, seq![])
    &&& is_delay(steps[4], RESET_DURATION_US)
    &&& is_command(steps[5], 0xF0, seq![0xC3u8])
    &&& is_command(steps[6], 0xF0, seq![0x96u8])
    &&& is_command(steps[7], SET_ADDRESS_MODE, seq![madctl])
    &&& is_command(steps[8], 0x3A, seq![0x55u8])
    &&& is_command(steps[9], 0xB4, seq![0x01u8])
    &&& is_command(steps[10], 0xB6, seq![0x80u8, 0x02, 0x3B])
    &&& is_command(steps[11], 0xE8, seq![0x40u8, 0x8A, 0x00, 0x00, 0x29, 0x19, 0xA5, 0x33])
    &&& is_command(steps[12], 0xC1, seq![0x06u8])
    &&& is_command(steps[13], 0xC2, seq![0xA7u8])
    &&& is_command(steps[14], 0xC5, seq![0x18u8])
    &&& is_delay(steps[15], RESET_DURATION_US)
    &&& is_command(steps[16], 0xE0, positive_gamma())
    &&& is_command(steps[17], 0xE1, negative_gamma())
    &&& is_delay(steps[18], RESET_DURATION_US)
    &&& is_command(steps[19], 0xF0, seq![0x3Cu8])
    &&& is_command(steps[20], 0xF0, seq![0x69u8])
    &&& is_command(
        steps[21],
        if invert_colors {
            ENTER_INVERT_MODE
        } else {
            EXIT_INVERT_MODE
        },
        seq![],
    )
    &&& is_command(steps[22], ENTER_NORMAL_MODE, seq![])
    &&& is_command(steps[23], SET_DISPLAY_ON, seq![])
    &&& is_delay(steps[24], RESET_DURATION_US)
}

/// A command step with its parameter bytes.
fn command_step(command: u8, parameters: Vec<u8>) -> (step: PanelStep)
    ensures
        is_command(step, command, parameters@),
{
    PanelStep::Command { command, parameters }
}

/// A parameter list of one byte.
fn one_byte(byte: u8) -> (parameters: Vec<u8>)
    ensures
        parameters@ == seq![byte],
{
    let mut parameters: Vec<u8> = Vec::new();
    parameters.push(byte);
    parameters
}

impl TDisplayS3ProSt7796 {
    /// Checks the interface and gives the power-up sequence for the
    /// address-mode byte `madctl` and the colour inversion; the panel is only
    /// driven over a four-line serial interface.
    pub fn init_sequence(&self, serial_4_line: bool, madctl: u8, invert_colors: bool) -> (steps:
        Result<Vec<PanelStep>, PanelInitError>)
        ensures
            !serial_4_line ==> (steps matches Err(e) && e == PanelInitError::UnsupportedInterface),
            serial_4_line ==> (steps matches Ok(s) && is_power_up_sequence(
                s@,
                madctl,
                invert_colors,
            )),
    {
        if !serial_4_line {
            return Err(PanelInitError::UnsupportedInterface);
        }
        let mut steps: Vec<PanelStep> = Vec::new();
        steps.push(PanelStep::Delay { microseconds: RESET_DURATION_US });
        steps.push(command_step(SOFT_RESET, Vec::new()));
        steps.push(PanelStep::Delay { microseconds: RESET_DURATION_US });
        steps.push(command_step(EXIT_SLEEP_MODE, Vec::new()));
        steps.push(PanelStep::Delay { microseconds: RESET_DURATION_US });
        steps.push(command_step(0xF0, one_byte(0xC3)));
        steps.push(command_step(0xF0, one_byte(0x96)));
        steps.push(command_step(SET_ADDRESS_MODE, one_byte(madctl)));
        steps.push(command_step(0x3A, one_byte(0x55)));
        steps.push(command_step(0xB4, one_byte(0x01)));
        steps.push(command_step(0xB6, vec![0x80, 0x02, 0x3B]));
        steps.push(command_step(0xE8, vec![0x40, 0x8A, 0x00, 0x00, 0x29, 0x19, 0xA5, 0x33]));
        steps.push(command_step(0xC1, one_byte(0x06)));
        steps.push(command_step(0xC2, one_byte(0xA7)));
        steps.push(command_step(0xC5, one_byte(0x18)));
        steps.push(PanelStep::Delay { microseconds: RESET_DURATION_US });
        steps.push(
            command_step(
                0xE0,
                vec![0xF0, 0x09, 0x0B, 0x06, 0x04, 0x15, 0x2F, 0x54, 0x42, 0x3C, 0x17, 0x14, 0x18, 0x1B],
            ),
        );
        steps.push(
            command_step(
                0xE1,
                vec![0xE0, 0x09, 0x0B, 0x06, 0x04, 0x03, 0x2B, 0x43, 0x42, 0x3B, 0x16, 0x14, 0x17, 0x1B],
            ),
        );
        steps.push(PanelStep::Delay { microseconds: RESET_DURATION_US });
        steps.push(command_step(0xF0, one_byte(0x3C)));
        steps.push(command_step(0xF0, one_byte(0x69)));
        let invert = if invert_colors {
            ENTER_INVERT_MODE
        } else {
            EXIT_INVERT_MODE
        };
        steps.push(command_step(invert, Vec::new()));
        steps.push(command_step(ENTER_NORMAL_MODE, Vec::new()));
        steps.push(command_step(SET_DISPLAY_ON, Vec::new()));
        steps.push(PanelStep::Delay { microseconds: RESET_DURATION_US });
        Ok(steps)
    }
}

} // verus!
