use pointer_ui::geometry::{P2, V3};
use pointer_ui::ingress::{translate_event, InputEvent, UiCommand};
use pointer_ui::ui::Mouse;

#[test]
fn close_event_stops_the_loop() {
    assert_eq!(translate_event(InputEvent::Closed), Some(UiCommand::Quit));
}

#[test]
fn scroll_becomes_scaled_swapped_pan() {
    // Axes swapped, the swapped horizontal axis inverted, both divided by 5.
    assert_eq!(
        translate_event(InputEvent::MouseWheel { dx: 10, dy: 25 }),
        Some(UiCommand::PanEye { scene_id: 0, delta: V3 { x: 5, y: -2, z: 0 } })
    );
    // Division rounds toward zero for negative deltas.
    assert_eq!(
        translate_event(InputEvent::MouseWheel { dx: -7, dy: -9 }),
        Some(UiCommand::PanEye { scene_id: 0, delta: V3 { x: -1, y: 1, z: 0 } })
    );
}

#[test]
fn pointer_events_become_mouse_messages() {
    assert_eq!(
        translate_event(InputEvent::MouseMoved { x: 3, y: 4 }),
        Some(UiCommand::Pointer(Mouse::Moved(P2 { x: 3, y: 4 })))
    );
    assert_eq!(translate_event(InputEvent::LeftPressed), Some(UiCommand::Pointer(Mouse::Down)));
    assert_eq!(translate_event(InputEvent::LeftReleased), Some(UiCommand::Pointer(Mouse::Up)));
}

#[test]
fn other_events_are_ignored() {
    assert_eq!(translate_event(InputEvent::Other), None);
}
