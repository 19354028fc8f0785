//! Board-independent touch events and their mapping to pointer events on
//! the landscape display.

use crate::cst226se;
use vstd::prelude::*;

verus! {

/// The landscape display is 480 pixels wide.
pub const DISPLAY_WIDTH: u16 = 480;

/// The landscape display is 222 pixels high.
pub const DISPLAY_HEIGHT: u16 = 222;

/// A controller-independent contact state.
#[derive(Debug, Clone, Copy, PartialEq, Eq, Structural)]
pub enum TouchEvent {
    Up,
    Contact,
}

/// A controller-independent first touch point.
#[derive(Debug, Clone, Copy, PartialEq, Eq, Structural)]
pub struct TouchPoint {
    pub points: u8,
    pub event: TouchEvent,
    pub x: u16,
    pub y: u16,
}

/// Errors surfaced to the render task.
#[derive(Debug, Clone, Copy, PartialEq, Eq, Structural)]
pub struct TouchpadError;

/// The portable touch point for one controller report: a point record of an
/// active finger is a contact at its coordinates; a lift record (any other
/// status) is a lift, never read as another press; no point is a lift at the
/// origin.
pub fn touch_point_from_report(point: Option<cst226se::TouchPoint>) -> (touch: TouchPoint)
    ensures
        touch == match point {
            Some(p) => TouchPoint {
                points: p.points,
                event: if p.status == cst226se::TOUCH_STATUS_PRESSED {
                    TouchEvent::Contact
                } else {
                    TouchEvent::Up
                },
                x: p.x,
                y: p.y,
            },
            None => TouchPoint { points: 0, event: TouchEvent::Up, x: 0, y: 0 },
        },
{
    match point {
        Some(p) => {
            let event = if cst226se::is_touch_pressed(p.status) {
                TouchEvent::Contact
            } else {
                TouchEvent::Up
            };
            TouchPoint { points: p.points, event, x: p.x, y: p.y }
        },
        None => TouchPoint { points: 0, event: TouchEvent::Up, x: 0, y: 0 },
    }
}

/// A pointer position on the landscape display.
#[derive(Debug, Clone, Copy, PartialEq, Eq, Structural)]
pub struct DisplayPosition {
    pub x: u16,
    pub y: u16,
}

/// The pointer event to dispatch for one touch reading.
#[derive(Debug, Clone, Copy, PartialEq, Eq, Structural)]
pub enum PointerAction {
    /// Nothing to dispatch.
    Nothing,
    /// Move the pointer to the position and press there.
    Press(DisplayPosition),
    /// Release the pointer at the position.
    Release(DisplayPosition),
}

/// The display position of a controller point: the controller axes are
/// swapped and the vertical axis mirrored, then clamped to the display.
pub open spec fn spec_display_position(x: u16, y: u16) -> DisplayPosition {
    DisplayPosition {
        x: if y <= 479 {
            y
        } else {
            479
        },
        y: if x >= 222 {
            0
        } else if 222 - x <= 221 {
            (222 - x) as u16
        } else {
            221
        },
    }
}

/// Maps a controller point to the display.
pub fn display_position(x: u16, y: u16) -> (position: DisplayPosition)
    ensures
        position == spec_display_position(x, y),
        position.x < DISPLAY_WIDTH,
        position.y < DISPLAY_HEIGHT,
{
    let display_x = if y <= DISPLAY_WIDTH - 1 {
        y
    } else {
        DISPLAY_WIDTH - 1
    };
    let display_y = if x >= DISPLAY_HEIGHT {
        0
    } else if DISPLAY_HEIGHT - x <= DISPLAY_HEIGHT - 1 {
        DISPLAY_HEIGHT - x
    } else {
        DISPLAY_HEIGHT - 1
    };
    DisplayPosition { x: display_x, y: display_y }
}

/// One step of the touch-to-pointer state machine, from the position where
/// the current contact started (if any) and one touch reading to the next
/// such position and the pointer event to dispatch.
///
/// The press position is kept for the whole contact, so that a small finger
/// roll still releases inside the pressed item. A reading without points is
/// ignored unless it is a lift.
pub open spec fn spec_touch_step(pressed: Option<DisplayPosition>, point: TouchPoint) -> (
    Option<DisplayPosition>,
    PointerAction,
) {
    if point.points == 0 && point.event != TouchEvent::Up {
        (pressed, PointerAction::Nothing)
    } else {
        match point.event {
            TouchEvent::Up => (
                None,
                match pressed {
                    Some(p) => PointerAction::Release(p),
                    None => PointerAction::Nothing,
                },
            ),
            TouchEvent::Contact => match pressed {
                Some(p) => (pressed, PointerAction::Nothing),
                None => (
                    Some(spec_display_position(point.x, point.y)),
                    PointerAction::Press(spec_display_position(point.x, point.y)),
                ),
            },
        }
    }
}

/// One step of the touch-to-pointer state machine, as [`spec_touch_step`].
pub fn touch_step(pressed: Option<DisplayPosition>, point: TouchPoint) -> (result: (
    Option<DisplayPosition>,
    PointerAction,
))
    ensures
        result == spec_touch_step(pressed, point),
{
    if point.points == 0 && point.event != TouchEvent::Up {
        return (pressed, PointerAction::Nothing);
    }
    match point.event {
        TouchEvent::Up => match pressed {
            Some(p) => (None, PointerAction::Release(p)),
            None => (None, PointerAction::Nothing),
        },
        TouchEvent::Contact => match pressed {
            Some(p) => (pressed, PointerAction::Nothing),
            None => {
                let position = display_position(point.x, point.y);
                (Some(position), PointerAction::Press(position))
            },
        },
    }
}

/// After a failed touch read, a held pointer is released where it was
/// pressed, so no item stays held.
pub fn touch_read_failed(pressed: Option<DisplayPosition>) -> (result: (
    Option<DisplayPosition>,
    PointerAction,
))
    ensures
        result.0 is None,
        result.1 == match pressed {
            Some(p) => PointerAction::Release(p),
            None => PointerAction::Nothing,
        },
{
    match pressed {
        Some(p) => (None, PointerAction::Release(p)),
        None => (None, PointerAction::Nothing),
    }
}

/// Every press is matched: a contact that starts a press, followed by any
/// readings that keep the finger down, is released exactly at the press
/// position when the finger lifts.
pub proof fn lemma_press_then_lift_releases_at_press(
    contact: TouchPoint,
    moves: Seq<TouchPoint>,
    lift: TouchPoint,
)
    requires
        contact.points != 0,
        contact.event == TouchEvent::Contact,
        forall|i: int| 0 <= i < moves.len() ==> (#[trigger] moves[i]).event == TouchEvent::Contact,
        lift.event == TouchEvent::Up,
    ensures
        ({
            let p = spec_display_position(contact.x, contact.y);
            let first = spec_touch_step(None, contact);
            let held = held_after(first.0, moves);
            &&& first == (Some(p), PointerAction::Press(p))
            &&& held == Some(p)
            &&& spec_touch_step(held, lift) == (None::<DisplayPosition>, PointerAction::Release(p))
        }),
{
    lemma_held_after_keeps_press(spec_display_position(contact.x, contact.y), moves);
}

/// The press position after a run of readings.
pub open spec fn held_after(pressed: Option<DisplayPosition>, readings: Seq<TouchPoint>) -> Option<
    DisplayPosition,
>
    decreases readings.len(),
{
    if readings.len() == 0 {
        pressed
    } else {
        held_after(spec_touch_step(pressed, readings[0]).0, readings.drop_first())
    }
}

/// Readings that keep the finger down keep the press position.
proof fn lemma_held_after_keeps_press(p: DisplayPosition, readings: Seq<TouchPoint>)
    requires
        forall|i: int|
            0 <= i < readings.len() ==> (#[trigger] readings[i]).event == TouchEvent::Contact,
    ensures
        held_after(Some(p), readings) == Some(p),
    decreases readings.len(),
{
    if readings.len() > 0 {
        assert forall|i: int| 0 <= i < readings.drop_first().len() implies (
        #[trigger] readings.drop_first()[i]).event == TouchEvent::Contact by {
            assert(readings.drop_first()[i] == readings[i + 1]);
        }
        lemma_held_after_keeps_press(p, readings.drop_first());
    }
}

/// A controller point lands on the display with its axes swapped: the
/// controller's `y` is the display's `x` across the whole 480-pixel width
/// (clamped only beyond it), and the controller's `x` is mirrored into the
/// display's height (`222 - x`, kept inside the 222 rows).
pub proof fn lemma_display_position_axes(x: u16, y: u16)
    ensures
        y < DISPLAY_WIDTH ==> spec_display_position(x, y).x == y,
        y >= DISPLAY_WIDTH ==> spec_display_position(x, y).x == DISPLAY_WIDTH - 1,
        0 < x < DISPLAY_HEIGHT ==> spec_display_position(x, y).y == DISPLAY_HEIGHT - x,
        x == 0 ==> spec_display_position(x, y).y == DISPLAY_HEIGHT - 1,
        x >= DISPLAY_HEIGHT ==> spec_display_position(x, y).y == 0,
{
}

} // verus!
