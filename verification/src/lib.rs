//! The core of a terminal task tracker.
//!
//! - [`status`]: the recognised statuses, their sort ranks and colours.
//! - [`task`]: the task and its view.
//! - [`state`]: projects and the context that the controller works on.
//! - [`order`]: the displayed order, a stable ordering by status rank.
//! - [`selection`]: where the cursor goes when the order changes.
//! - [`render`]: the entries that the list widget is given.
//! - [`controller`]: recomputing the display, and the four edits.
//! - [`laws`]: what holds of all of these, for all inputs.

pub mod controller;
pub mod laws;
pub mod order;
pub mod render;
pub mod selection;
pub mod state;
pub mod status;
pub mod task;
