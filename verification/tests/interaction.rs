use pointer_ui::geometry::{Region, P2, P3};
use pointer_ui::registry::Id;
use pointer_ui::ui::{
    Add, Event3d, Mouse, Notification, Projected3d, ProjectionRequest, Remove, UiFault,
    UserInterface,
};

fn rect(x0: i64, y0: i64, x1: i64, y1: i64) -> Region {
    Region::Rect { min: P2 { x: x0, y: y0 }, max: P2 { x: x1, y: y1 } }
}

fn ui_with_region_a() -> UserInterface {
    let mut ui = UserInterface::new();
    ui.receive_add(Add::Interactable3d(Id(1), rect(0, 0, 10, 10), 0)).unwrap();
    ui
}

#[test]
fn move_requests_projection_and_changes_nothing_else() {
    let mut ui = ui_with_region_a();
    let (notes, req) = ui.receive_mouse(Mouse::Moved(P2 { x: 5, y: 5 }));
    assert!(notes.is_empty());
    assert_eq!(req, Some(ProjectionRequest { scene_id: 0, position_2d: P2 { x: 5, y: 5 } }));
    assert_eq!(ui.cursor_2d, P2 { x: 5, y: 5 });
    assert_eq!(ui.hovered_interactable, None);
    assert_eq!(ui.active_interactable, None);
}

#[test]
fn hover_starts_once_and_stops_on_leaving() {
    let mut ui = ui_with_region_a();
    ui.receive_mouse(Mouse::Moved(P2 { x: 5, y: 5 }));
    let notes = ui.receive_projected(Projected3d { position_3d: P3 { x: 5, y: 5, z: 0 } });
    assert_eq!(
        notes,
        vec![Notification { target: Id(1), event: Event3d::HoverStarted { at: P3 { x: 5, y: 5, z: 0 } } }]
    );
    assert_eq!(ui.hovered_interactable, Some(Id(1)));

    // Another move within the same region: no duplicate hover-started.
    ui.receive_mouse(Mouse::Moved(P2 { x: 6, y: 6 }));
    let notes = ui.receive_projected(Projected3d { position_3d: P3 { x: 6, y: 6, z: 0 } });
    assert!(notes.is_empty());
    assert_eq!(ui.hovered_interactable, Some(Id(1)));

    // Moving outside all regions: hover-stopped to the previous holder.
    ui.receive_mouse(Mouse::Moved(P2 { x: 50, y: 50 }));
    let notes = ui.receive_projected(Projected3d { position_3d: P3 { x: 50, y: 50, z: 0 } });
    assert_eq!(notes, vec![Notification { target: Id(1), event: Event3d::HoverStopped }]);
    assert_eq!(ui.hovered_interactable, None);
}

#[test]
fn hover_switch_notifies_both_owners() {
    let mut ui = ui_with_region_a();
    ui.receive_add(Add::Interactable3d(Id(2), rect(20, 20, 30, 30), 0)).unwrap();
    ui.receive_projected(Projected3d { position_3d: P3 { x: 5, y: 5, z: 0 } });
    let notes = ui.receive_projected(Projected3d { position_3d: P3 { x: 25, y: 25, z: 0 } });
    assert_eq!(
        notes,
        vec![
            Notification { target: Id(1), event: Event3d::HoverStopped },
            Notification { target: Id(2), event: Event3d::HoverStarted { at: P3 { x: 25, y: 25, z: 0 } } },
        ]
    );
}

#[test]
fn press_release_without_move_is_one_whole_drag() {
    let mut ui = ui_with_region_a();
    ui.receive_mouse(Mouse::Moved(P2 { x: 5, y: 5 }));
    ui.receive_projected(Projected3d { position_3d: P3 { x: 5, y: 5, z: 0 } });

    let (notes, req) = ui.receive_mouse(Mouse::Down);
    assert_eq!(req, None);
    assert_eq!(
        notes,
        vec![Notification { target: Id(1), event: Event3d::DragStarted { at: P3 { x: 5, y: 5, z: 0 } } }]
    );
    assert_eq!(ui.active_interactable, Some(Id(1)));
    assert_eq!(ui.drag_start_2d, Some(P2 { x: 5, y: 5 }));
    assert_eq!(ui.drag_start_3d, Some(P3 { x: 5, y: 5, z: 0 }));

    let (notes, req) = ui.receive_mouse(Mouse::Up);
    assert_eq!(req, None);
    assert_eq!(
        notes,
        vec![Notification {
            target: Id(1),
            event: Event3d::DragFinished {
                from: P3 { x: 5, y: 5, z: 0 },
                to: P3 { x: 5, y: 5, z: 0 },
            },
        }]
    );
    assert_eq!(ui.active_interactable, None);
    assert_eq!(ui.drag_start_2d, None);
    assert_eq!(ui.drag_start_3d, None);
    // Hover tracking was not disturbed by the press/release pair.
    assert_eq!(ui.hovered_interactable, Some(Id(1)));
}

#[test]
fn press_while_hovering_none_targets_nothing() {
    let mut ui = ui_with_region_a();
    let (notes, _) = ui.receive_mouse(Mouse::Down);
    assert!(notes.is_empty());
    assert_eq!(ui.active_interactable, None);
}

#[test]
fn projection_during_drag_sends_only_drag_ongoing() {
    let mut ui = ui_with_region_a();
    ui.receive_add(Add::Interactable3d(Id(2), rect(20, 20, 30, 30), 0)).unwrap();
    ui.receive_projected(Projected3d { position_3d: P3 { x: 5, y: 5, z: 0 } });
    ui.receive_mouse(Mouse::Down);

    // The pointer passes over a different region while dragging: only
    // drag-ongoing is sent, and the hovered identity stays frozen.
    let notes = ui.receive_projected(Projected3d { position_3d: P3 { x: 25, y: 25, z: 0 } });
    assert_eq!(
        notes,
        vec![Notification {
            target: Id(1),
            event: Event3d::DragOngoing {
                from: P3 { x: 5, y: 5, z: 0 },
                to: P3 { x: 25, y: 25, z: 0 },
            },
        }]
    );
    assert_eq!(ui.hovered_interactable, Some(Id(1)));
    assert_eq!(ui.active_interactable, Some(Id(1)));
}

#[test]
fn release_with_no_active_identity_is_a_no_op() {
    let mut ui = UserInterface::new();
    let (notes, req) = ui.receive_mouse(Mouse::Up);
    assert!(notes.is_empty());
    assert_eq!(req, None);
    assert_eq!(ui.active_interactable, None);
    assert_eq!(ui.drag_start_2d, None);
    assert_eq!(ui.drag_start_3d, None);
}

#[test]
fn two_dimensional_paths_fail_loudly_without_corrupting_state() {
    let mut ui = ui_with_region_a();
    assert_eq!(
        ui.receive_add(Add::Interactable2d(Id(9), rect(0, 0, 1, 1), 0)),
        Err(UiFault::Unimplemented)
    );
    assert_eq!(ui.receive_remove(Remove::Interactable2d(Id(1))), Err(UiFault::Unimplemented));
    // The 3D entry is untouched by the failed requests.
    let notes = ui.receive_projected(Projected3d { position_3d: P3 { x: 5, y: 5, z: 0 } });
    assert_eq!(notes.len(), 1);
    assert_eq!(ui.hovered_interactable, Some(Id(1)));
}

#[test]
fn remove_makes_identity_absent_from_hit_tests() {
    let mut ui = ui_with_region_a();
    ui.receive_remove(Remove::Interactable3d(Id(1))).unwrap();
    let notes = ui.receive_projected(Projected3d { position_3d: P3 { x: 5, y: 5, z: 0 } });
    assert!(notes.is_empty());
    assert_eq!(ui.hovered_interactable, None);
}

#[test]
fn startup_state_is_empty() {
    let ui = UserInterface::new();
    assert_eq!(ui.cursor_2d, P2 { x: 0, y: 0 });
    assert_eq!(ui.cursor_3d, P3 { x: 0, y: 0, z: 0 });
    assert_eq!(ui.drag_start_2d, None);
    assert_eq!(ui.drag_start_3d, None);
    assert_eq!(ui.hovered_interactable, None);
    assert_eq!(ui.active_interactable, None);
}

#[test]
fn press_uses_stale_3d_position_until_projection_arrives() {
    let mut ui = ui_with_region_a();
    ui.receive_projected(Projected3d { position_3d: P3 { x: 5, y: 5, z: 0 } });
    // The pointer has moved, but its projection has not come back yet:
    // the press anchors at the older 3D position.
    ui.receive_mouse(Mouse::Moved(P2 { x: 9, y: 9 }));
    let (notes, _) = ui.receive_mouse(Mouse::Down);
    assert_eq!(
        notes,
        vec![Notification { target: Id(1), event: Event3d::DragStarted { at: P3 { x: 5, y: 5, z: 0 } } }]
    );
    assert_eq!(ui.drag_start_2d, Some(P2 { x: 9, y: 9 }));
    assert_eq!(ui.drag_start_3d, Some(P3 { x: 5, y: 5, z: 0 }));
}
