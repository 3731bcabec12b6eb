//! Pointer-interaction layer of an interactive 3D application.
//!
//! The crate owns a registry of clickable/draggable regions
//! ("interactables"), resolves which region is under the pointer, and
//! drives hover/drag transitions from pointer and projection events.
//! Outbound notifications are returned as values; the surrounding
//! application delivers them and performs the asynchronous 2D-to-3D
//! projection.

pub mod geometry;
pub mod ingress;
pub mod registry;
pub mod ui;
