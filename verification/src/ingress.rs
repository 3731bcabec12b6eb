//! Event ingress: the decisions that turn raw platform events into this
//! core's message vocabulary. The application's event loop performs the
//! resulting command (send a pointer message, forward a camera pan, or
//! stop); only the decision logic lives here.

use vstd::prelude::*;

use crate::geometry::{P2, V3};
use crate::ui::Mouse;

verus! {

/// A raw platform event, already reduced to plain values by the window
/// layer. Non-left-button and otherwise uninteresting events arrive as
/// `Other`.
#[derive(Clone, Copy, Debug, PartialEq, Eq, Structural)]
pub enum InputEvent {
    Closed,
    MouseWheel { dx: i64, dy: i64 },
    MouseMoved { x: i64, y: i64 },
    LeftPressed,
    LeftReleased,
    Other,
}

/// What the event loop must do with one raw event: stop polling, forward
/// a camera-pan delta to the rendering service, or deliver a pointer
/// message to the interaction state machine.
#[derive(Clone, Copy, Debug, PartialEq, Eq, Structural)]
pub enum UiCommand {
    Quit,
    PanEye { scene_id: u64, delta: V3 },
    Pointer(Mouse),
}

/// A scroll delta scaled down by the pan division factor of 5, rounding
/// toward zero.
pub open spec fn scaled_fifth(d: int) -> int {
    if d >= 0 {
        d / 5
    } else {
        -((-d) / 5)
    }
}

/// Divide a scroll delta by 5, rounding toward zero.
fn fifth(d: i64) -> (r: i64)
    ensures
        r == scaled_fifth(d as int),
{
    d / 5
}

/// Translate one raw platform event into a command: a close request
/// stops the loop; a scroll wheel becomes a camera pan with the delta
/// scaled by a factor of 5, the axes swapped and one axis inverted;
/// moves and left-button presses/releases become pointer messages; all
/// other events are ignored.
pub fn translate_event(event: InputEvent) -> (r: Option<UiCommand>)
    ensures
        event is Closed ==> r == Some(UiCommand::Quit),
        event matches InputEvent::MouseWheel { dx, dy } ==> r == Some(
            UiCommand::PanEye {
                scene_id: 0,
                delta: (V3 {
                    x: scaled_fifth(dy as int) as i64,
                    y: -scaled_fifth(dx as int) as i64,
                    z: 0,
                }),
            },
        ),
        event matches InputEvent::MouseMoved { x, y } ==> r == Some(
            UiCommand::Pointer(Mouse::Moved(P2 { x, y })),
        ),
        event is LeftPressed ==> r == Some(UiCommand::Pointer(Mouse::Down)),
        event is LeftReleased ==> r == Some(UiCommand::Pointer(Mouse::Up)),
        event is Other ==> r is None,
{
    match event {
        InputEvent::Closed => Some(UiCommand::Quit),
        InputEvent::MouseWheel { dx, dy } => {
            let pan_x = fifth(dy);
            let pan_y = -fifth(dx);
            Some(UiCommand::PanEye { scene_id: 0, delta: V3 { x: pan_x, y: pan_y, z: 0 } })
        },
        InputEvent::MouseMoved { x, y } => Some(UiCommand::Pointer(Mouse::Moved(P2 { x, y }))),
        InputEvent::LeftPressed => Some(UiCommand::Pointer(Mouse::Down)),
        InputEvent::LeftReleased => Some(UiCommand::Pointer(Mouse::Up)),
        InputEvent::Other => None,
    }
}

} // verus!
