//! The records that the store keeps and accepts.

use vstd::prelude::*;

verus! {

/// What kind of gathering an event is.
#[derive(Clone, Copy, Debug, PartialEq, Eq, Structural)]
pub enum EventType {
    Class,
    Party,
}

/// The audience an event is meant for.
#[derive(Clone, Copy, Debug, PartialEq, Eq, Structural)]
pub enum EventLevel {
    Beginner,
    Intermediate,
    Advanced,
    Teacher,
}

/// What a caller supplies to have an event created. It carries no identifier:
/// identifiers are chosen by the store alone.
pub struct EventInput {
    pub title: String,
    pub description: String,
    pub start_time: u64,
    pub end_time: u64,
    pub location: String,
    pub event_type: EventType,
    pub instructor: String,
    pub level: EventLevel,
}

/// The mathematical content of an [`EventInput`].
pub struct EventInputView {
    pub title: Seq<char>,
    pub description: Seq<char>,
    pub start_time: u64,
    pub end_time: u64,
    pub location: Seq<char>,
    pub event_type: EventType,
    pub instructor: Seq<char>,
    pub level: EventLevel,
}

impl View for EventInput {
    type V = EventInputView;

    open spec fn view(&self) -> EventInputView {
        EventInputView {
            title: self.title@,
            description: self.description@,
            start_time: self.start_time,
            end_time: self.end_time,
            location: self.location@,
            event_type: self.event_type,
            instructor: self.instructor@,
            level: self.level,
        }
    }
}

/// A stored event: the caller's fields together with the identifier that the
/// store assigned.
pub struct Event {
    pub id: u16,
    pub title: String,
    pub description: String,
    pub start_time: u64,
    pub end_time: u64,
    pub location: String,
    pub event_type: EventType,
    pub instructor: String,
    pub level: EventLevel,
}

/// The mathematical content of an [`Event`].
pub struct EventView {
    pub id: int,
    pub input: EventInputView,
}

impl View for Event {
    type V = EventView;

    open spec fn view(&self) -> EventView {
        EventView {
            id: self.id as int,
            input: EventInputView {
                title: self.title@,
                description: self.description@,
                start_time: self.start_time,
                end_time: self.end_time,
                location: self.location@,
                event_type: self.event_type,
                instructor: self.instructor@,
                level: self.level,
            },
        }
    }
}

impl EventInputView {
    /// The event that results from giving these fields the identifier `id`.
    pub open spec fn with_id(self, id: int) -> EventView {
        EventView { id, input: self }
    }
}

impl Event {
    /// Builds the stored form of `input` under the identifier `id`.
    pub fn from_input(id: u16, input: EventInput) -> (event: Event)
        ensures
            event@ == input@.with_id(id as int),
    {
        Event {
            id,
            title: input.title,
            description: input.description,
            start_time: input.start_time,
            end_time: input.end_time,
            location: input.location,
            event_type: input.event_type,
            instructor: input.instructor,
            level: input.level,
        }
    }
}

} // verus!
