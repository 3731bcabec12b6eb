//! The interaction state machine. It consumes registration requests,
//! pointer events, and asynchronous projection responses, updates the
//! pointer state, and returns the notifications the application must
//! deliver to interactable owners, together with any projection request
//! to issue. Delivery is fire-and-forget and belongs to the caller.

use vstd::prelude::*;

use crate::geometry::{P2, P3, Region};
use crate::registry::{is_best, is_candidate, Id, Registry};

verus! {

/// A fault raised by the registration paths: the 2D-only interactable
/// kind is a deliberately unimplemented capability and must fail loudly.
#[derive(Clone, Copy, Debug, PartialEq, Eq, Structural)]
pub enum UiFault {
    Unimplemented,
}

/// A registration request. Only the 3D kind is supported.
#[derive(Clone, Copy, Debug, PartialEq, Eq, Structural)]
pub enum Add {
    Interactable2d(Id, Region, usize),
    Interactable3d(Id, Region, usize),
}

/// A removal request. Only the 3D kind is supported.
#[derive(Clone, Copy, Debug, PartialEq, Eq, Structural)]
pub enum Remove {
    Interactable2d(Id),
    Interactable3d(Id),
}

/// A raw pointer event, as the event ingress hands it over.
#[derive(Clone, Copy, Debug, PartialEq, Eq, Structural)]
pub enum Mouse {
    Moved(P2),
    Down,
    Up,
}

/// The asynchronous answer to a projection request: the 2D cursor
/// position resolved into world space.
#[derive(Clone, Copy, Debug, PartialEq, Eq, Structural)]
pub struct Projected3d {
    pub position_3d: P3,
}

/// An interaction notification to an interactable's owner.
///
/// `DragAborted` is part of the outbound vocabulary for external
/// cancellation; this state machine never originates it.
#[derive(Clone, Copy, Debug, PartialEq, Eq, Structural)]
pub enum Event3d {
    DragStarted { at: P3 },
    DragOngoing { from: P3, to: P3 },
    DragFinished { from: P3, to: P3 },
    DragAborted,
    HoverStarted { at: P3 },
    HoverStopped,
}

/// One outbound notification: which owner to tell, and what happened.
#[derive(Clone, Copy, Debug, PartialEq, Eq, Structural)]
pub struct Notification {
    pub target: Id,
    pub event: Event3d,
}

/// A request to the external projection service: resolve this 2D point
/// into world space for the given scene. The requester is the state
/// machine that returned the request; the application routes the
/// service's answer back to it as a `Projected3d` message.
#[derive(Clone, Copy, Debug, PartialEq, Eq, Structural)]
pub struct ProjectionRequest {
    pub scene_id: u64,
    pub position_2d: P2,
}

/// The hover notifications owed when the hovered identity goes from
/// `prev` to `next` with the pointer resolved at `at`: none when it is
/// unchanged, else a stop to the previous holder and a start to the new.
pub open spec fn hover_notifications(prev: Option<Id>, next: Option<Id>, at: P3) -> Seq<
    Notification,
> {
    if prev == next {
        Seq::empty()
    } else {
        (match prev {
            Some(h) => seq![Notification { target: h, event: Event3d::HoverStopped }],
            None => Seq::empty(),
        }) + (match next {
            Some(h) => seq![Notification { target: h, event: Event3d::HoverStarted { at } }],
            None => Seq::empty(),
        })
    }
}

/// The pointer-interaction state machine and its pointer state.
///
/// The 3D cursor position lags the 2D one until a projection response
/// arrives, so a press may legitimately anchor a drag at a 3D position
/// computed from a slightly older cursor location.
pub struct UserInterface {
    pub interactables_3d: Registry,
    pub cursor_2d: P2,
    pub cursor_3d: P3,
    pub drag_start_2d: Option<P2>,
    pub drag_start_3d: Option<P3>,
    pub hovered_interactable: Option<Id>,
    pub active_interactable: Option<Id>,
}

impl UserInterface {
    /// The pointer-state invariant: the registry is well formed, the two
    /// drag anchors are both present or both absent, and an active drag
    /// always has its anchors recorded.
    pub open spec fn wf(self) -> bool {
        &&& self.interactables_3d.wf()
        &&& (self.drag_start_2d is Some <==> self.drag_start_3d is Some)
        &&& (self.active_interactable is Some ==> self.drag_start_3d is Some)
    }

    /// The startup state: nothing registered, cursor at the origin, no
    /// anchors, nothing hovered, nothing active.
    pub fn new() -> (ui: UserInterface)
        ensures
            ui.wf(),
            ui.interactables_3d@ == Map::<Id, (Region, usize)>::empty(),
            ui.cursor_2d == (P2 { x: 0, y: 0 }),
            ui.cursor_3d == (P3 { x: 0, y: 0, z: 0 }),
            ui.drag_start_2d is None,
            ui.drag_start_3d is None,
            ui.hovered_interactable is None,
            ui.active_interactable is None,
    {
        UserInterface {
            interactables_3d: Registry::new(),
            cursor_2d: P2 { x: 0, y: 0 },
            cursor_3d: P3 { x: 0, y: 0, z: 0 },
            drag_start_2d: None,
            drag_start_3d: None,
            hovered_interactable: None,
            active_interactable: None,
        }
    }

    /// Handle a registration request. The 3D kind inserts or replaces
    /// the entry; the 2D kind is an unimplemented capability and fails
    /// without touching any state.
    pub fn receive_add(&mut self, msg: Add) -> (r: Result<(), UiFault>)
        requires
            old(self).wf(),
        ensures
            final(self).wf(),
            msg matches Add::Interactable3d(id, region, z_index) ==> (r is Ok
                && final(self).interactables_3d@ == old(self).interactables_3d@.insert(
                id,
                (region, z_index),
            )),
            msg matches Add::Interactable2d(..) ==> (r == Err::<(), UiFault>(UiFault::Unimplemented)
                && *final(self) == *old(self)),
            final(self).cursor_2d == old(self).cursor_2d,
            final(self).cursor_3d == old(self).cursor_3d,
            final(self).drag_start_2d == old(self).drag_start_2d,
            final(self).drag_start_3d == old(self).drag_start_3d,
            final(self).hovered_interactable == old(self).hovered_interactable,
            final(self).active_interactable == old(self).active_interactable,
    {
        match msg {
            Add::Interactable2d(_id, _region, _z_index) => Err(UiFault::Unimplemented),
            Add::Interactable3d(id, region, z_index) => {
                self.interactables_3d.register(id, region, z_index);
                Ok(())
            },
        }
    }

    /// Handle a removal request. The 3D kind removes the entry if
    /// present (a no-op otherwise); the 2D kind is an unimplemented
    /// capability and fails without touching any state.
    pub fn receive_remove(&mut self, msg: Remove) -> (r: Result<(), UiFault>)
        requires
            old(self).wf(),
        ensures
            final(self).wf(),
            msg matches Remove::Interactable3d(id) ==> (r is Ok
                && final(self).interactables_3d@ == old(self).interactables_3d@.remove(id)),
            msg matches Remove::Interactable2d(..) ==> (r == Err::<(), UiFault>(
                UiFault::Unimplemented,
            ) && *final(self) == *old(self)),
            final(self).cursor_2d == old(self).cursor_2d,
            final(self).cursor_3d == old(self).cursor_3d,
            final(self).drag_start_2d == old(self).drag_start_2d,
            final(self).drag_start_3d == old(self).drag_start_3d,
            final(self).hovered_interactable == old(self).hovered_interactable,
            final(self).active_interactable == old(self).active_interactable,
    {
        match msg {
            Remove::Interactable2d(_id) => Err(UiFault::Unimplemented),
            Remove::Interactable3d(id) => {
                self.interactables_3d.unregister(id);
                Ok(())
            },
        }
    }

    /// Handle a raw pointer event.
    ///
    /// A move only records the new 2D position and asks for a projection
    /// (it never changes hover or drag state by itself). A press anchors
    /// a drag at the current 2D/3D positions and targets the hovered
    /// identity, notifying it that a drag started; pressing while
    /// hovering nothing targets nothing and notifies nobody. A release
    /// notifies the active identity (if any) that the drag finished,
    /// from the recorded anchor to the current 3D position, then clears
    /// the anchors and the active identity unconditionally; a release
    /// with no active identity sends nothing.
    pub fn receive_mouse(&mut self, msg: Mouse) -> (r: (Vec<Notification>, Option<
        ProjectionRequest,
    >))
        requires
            old(self).wf(),
        ensures
            final(self).wf(),
            final(self).interactables_3d == old(self).interactables_3d,
            final(self).hovered_interactable == old(self).hovered_interactable,
            msg matches Mouse::Moved(position) ==> ({
                &&& final(self).cursor_2d == position
                &&& final(self).cursor_3d == old(self).cursor_3d
                &&& final(self).drag_start_2d == old(self).drag_start_2d
                &&& final(self).drag_start_3d == old(self).drag_start_3d
                &&& final(self).active_interactable == old(self).active_interactable
                &&& r.0@ == Seq::<Notification>::empty()
                &&& r.1 == Some(ProjectionRequest { scene_id: 0, position_2d: position })
            }),
            msg is Down ==> ({
                &&& final(self).cursor_2d == old(self).cursor_2d
                &&& final(self).cursor_3d == old(self).cursor_3d
                &&& final(self).drag_start_2d == Some(old(self).cursor_2d)
                &&& final(self).drag_start_3d == Some(old(self).cursor_3d)
                &&& final(self).active_interactable == old(self).hovered_interactable
                &&& r.1 is None
                &&& r.0@ == (match old(self).hovered_interactable {
                    Some(h) => seq![
                        Notification {
                            target: h,
                            event: Event3d::DragStarted { at: old(self).cursor_3d },
                        },
                    ],
                    None => Seq::empty(),
                })
            }),
            msg is Up ==> ({
                &&& final(self).cursor_2d == old(self).cursor_2d
                &&& final(self).cursor_3d == old(self).cursor_3d
                &&& final(self).drag_start_2d is None
                &&& final(self).drag_start_3d is None
                &&& final(self).active_interactable is None
                &&& r.1 is None
                &&& r.0@ == (match old(self).active_interactable {
                    Some(a) => seq![
                        Notification {
                            target: a,
                            event: Event3d::DragFinished {
                                from: old(self).drag_start_3d.unwrap(),
                                to: old(self).cursor_3d,
                            },
                        },
                    ],
                    None => Seq::empty(),
                })
            }),
    {
        match msg {
            Mouse::Moved(position) => {
                self.cursor_2d = position;
                (Vec::new(), Some(ProjectionRequest { scene_id: 0, position_2d: position }))
            },
            Mouse::Down => {
                self.drag_start_2d = Some(self.cursor_2d);
                self.drag_start_3d = Some(self.cursor_3d);
                self.active_interactable = self.hovered_interactable;
                let mut notes: Vec<Notification> = Vec::new();
                if let Some(active) = self.active_interactable {
                    notes.push(
                        Notification {
                            target: active,
                            event: Event3d::DragStarted { at: self.cursor_3d },
                        },
                    );
                }
                (notes, None)
            },
            Mouse::Up => {
                let mut notes: Vec<Notification> = Vec::new();
                if let Some(active) = self.active_interactable {
                    let from = self.drag_start_3d.unwrap();
                    notes.push(
                        Notification {
                            target: active,
                            event: Event3d::DragFinished { from, to: self.cursor_3d },
                        },
                    );
                }
                self.drag_start_2d = None;
                self.drag_start_3d = None;
                self.active_interactable = None;
                (notes, None)
            },
        }
    }

    /// Handle a projection response: adopt the resolved 3D position.
    ///
    /// During an active drag the active identity gets exactly one
    /// drag-ongoing notification and hover tracking stays frozen, no
    /// matter what the pointer now lies over. With no active drag, the
    /// hovered identity is recomputed by the hit-test resolver; the
    /// notifications owed are exactly those of `hover_notifications`, so
    /// an unchanged hover sends nothing.
    pub fn receive_projected(&mut self, msg: Projected3d) -> (r: Vec<Notification>)
        requires
            old(self).wf(),
        ensures
            final(self).wf(),
            final(self).interactables_3d == old(self).interactables_3d,
            final(self).cursor_2d == old(self).cursor_2d,
            final(self).cursor_3d == msg.position_3d,
            final(self).drag_start_2d == old(self).drag_start_2d,
            final(self).drag_start_3d == old(self).drag_start_3d,
            final(self).active_interactable == old(self).active_interactable,
            old(self).active_interactable matches Some(a) ==> ({
                &&& final(self).hovered_interactable == old(self).hovered_interactable
                &&& r@ == seq![
                    Notification {
                        target: a,
                        event: Event3d::DragOngoing {
                            from: old(self).drag_start_3d.unwrap(),
                            to: msg.position_3d,
                        },
                    },
                ]
            }),
            old(self).active_interactable is None ==> ({
                &&& (final(self).hovered_interactable is None <==> (forall|id: Id|
                    !is_candidate(old(self).interactables_3d@, msg.position_3d, id)))
                &&& (final(self).hovered_interactable matches Some(h) ==> is_best(
                    old(self).interactables_3d@,
                    msg.position_3d,
                    h,
                ))
                &&& r@ == hover_notifications(
                    old(self).hovered_interactable,
                    final(self).hovered_interactable,
                    msg.position_3d,
                )
            }),
    {
        self.cursor_3d = msg.position_3d;
        let mut notes: Vec<Notification> = Vec::new();
        if let Some(active) = self.active_interactable {
            let from = self.drag_start_3d.unwrap();
            notes.push(
                Notification {
                    target: active,
                    event: Event3d::DragOngoing { from, to: msg.position_3d },
                },
            );
            proof {
                assert(notes@ =~= seq![
                    Notification {
                        target: active,
                        event: Event3d::DragOngoing { from, to: msg.position_3d },
                    },
                ]);
            }
        } else {
            let ghost prev = self.hovered_interactable;
            let new_hovered = self.interactables_3d.hit_test_3d(msg.position_3d);
            let changed = match (self.hovered_interactable, new_hovered) {
                (None, None) => false,
                (Some(a), Some(b)) => a.0 != b.0,
                _ => true,
            };
            if changed {
                if let Some(previous) = self.hovered_interactable {
                    notes.push(
                        Notification { target: previous, event: Event3d::HoverStopped },
                    );
                }
                if let Some(next) = new_hovered {
                    notes.push(
                        Notification {
                            target: next,
                            event: Event3d::HoverStarted { at: msg.position_3d },
                        },
                    );
                }
            }
            self.hovered_interactable = new_hovered;
            proof {
                assert(notes@ =~= hover_notifications(prev, new_hovered, msg.position_3d));
            }
        }
        notes
    }
}

} // verus!
