//! The state of a to-do list: an ordered collection of tasks, the slot that
//! says which task is open for editing, and the display filters, together
//! with the operations a display surface may ask for.

pub mod batch;
pub mod intent;
pub mod laws;
pub mod model;
pub mod positions;
pub mod snapshot;
pub mod store;
pub mod task;
pub mod text;
