//! A small persistent store: one greeting and an append-only list of events
//! whose identifiers are handed out by the store itself.

pub mod decimal;
pub mod exchange;
pub mod model;
pub mod notice;
pub mod operation;
pub mod store;

pub use exchange::{AddEventError, DecodeError, EventInputRecord, EventRecord};
pub use model::{Event, EventInput, EventInputView, EventLevel, EventType, EventView};
pub use operation::{Call, Receipt, Reply};
pub use store::{Contract, StoreState};
