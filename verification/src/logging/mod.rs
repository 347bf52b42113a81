//! The mission log.

pub mod event;
pub mod logger;
pub mod text;

pub use event::{Event, EventModel, EventType, EventTypeModel};
pub use logger::DataLoger;
