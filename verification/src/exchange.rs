//! The form in which events cross the call boundary: every field as it
//! stands in the human-readable exchange format, where the two closed sets
//! are written by name and the two timestamps as decimal text. Decoding
//! refuses whatever it cannot map; nothing is ever defaulted.

use crate::decimal::{decimal_text, format_u64, lemma_parse_inverts_format, parse_u64, parsed_u64};
use crate::model::{Event, EventInput, EventInputView, EventLevel, EventType, EventView};
use crate::store::{event_views, Contract, StoreState};
use vstd::prelude::*;
use vstd::string::*;

verus! {

/// Whether two texts hold the same characters.
fn same_text(left: &str, right: &str) -> (same: bool)
    ensures
        same == (left@ == right@),
{
    let a = left.as_bytes();
    let b = right.as_bytes();
    proof {
        vstd::utf8::encode_utf8_decode_utf8(left@);
        vstd::utf8::encode_utf8_decode_utf8(right@);
    }
    if a.len() != b.len() {
        return false;
    }
    let mut i: usize = 0;
    while i < a.len()
        invariant
            i <= a.len(),
            a.len() == b.len(),
            a@ == vstd::utf8::encode_utf8(left@),
            b@ == vstd::utf8::encode_utf8(right@),
            forall|k: int| 0 <= k < i ==> a@[k] == b@[k],
        decreases a.len() - i,
    {
        if a[i] != b[i] {
            return false;
        }
        i += 1;
    }
    assert(a@ =~= b@);
    true
}

impl EventType {
    /// The name under which this variant is exchanged.
    pub open spec fn name(self) -> Seq<char> {
        match self {
            EventType::Class => "Class"@,
            EventType::Party => "Party"@,
        }
    }

    /// The variant that `name` stands for, if it stands for one.
    pub open spec fn named(name: Seq<char>) -> Option<EventType> {
        if name == "Class"@ {
            Some(EventType::Class)
        } else if name == "Party"@ {
            Some(EventType::Party)
        } else {
            None
        }
    }

    /// The name under which this variant is exchanged.
    pub fn as_str(self) -> (name: &'static str)
        ensures
            name@ == self.name(),
    {
        match self {
            EventType::Class => "Class",
            EventType::Party => "Party",
        }
    }

    /// Reads a variant from its name; any other text is refused.
    pub fn from_name(name: &str) -> (variant: Option<EventType>)
        ensures
            variant == EventType::named(name@),
    {
        if same_text(name, "Class") {
            Some(EventType::Class)
        } else if same_text(name, "Party") {
            Some(EventType::Party)
        } else {
            None
        }
    }
}

impl EventLevel {
    /// The name under which this variant is exchanged.
    pub open spec fn name(self) -> Seq<char> {
        match self {
            EventLevel::Beginner => "Beginner"@,
            EventLevel::Intermediate => "Intermediate"@,
            EventLevel::Advanced => "Advanced"@,
            EventLevel::Teacher => "Teacher"@,
        }
    }

    /// The variant that `name` stands for, if it stands for one.
    pub open spec fn named(name: Seq<char>) -> Option<EventLevel> {
        if name == "Beginner"@ {
            Some(EventLevel::Beginner)
        } else if name == "Intermediate"@ {
            Some(EventLevel::Intermediate)
        } else if name == "Advanced"@ {
            Some(EventLevel::Advanced)
        } else if name == "Teacher"@ {
            Some(EventLevel::Teacher)
        } else {
            None
        }
    }

    /// The name under which this variant is exchanged.
    pub fn as_str(self) -> (name: &'static str)
        ensures
            name@ == self.name(),
    {
        match self {
            EventLevel::Beginner => "Beginner",
            EventLevel::Intermediate => "Intermediate",
            EventLevel::Advanced => "Advanced",
            EventLevel::Teacher => "Teacher",
        }
    }

    /// Reads a variant from its name; any other text is refused.
    pub fn from_name(name: &str) -> (variant: Option<EventLevel>)
        ensures
            variant == EventLevel::named(name@),
    {
        if same_text(name, "Beginner") {
            Some(EventLevel::Beginner)
        } else if same_text(name, "Intermediate") {
            Some(EventLevel::Intermediate)
        } else if same_text(name, "Advanced") {
            Some(EventLevel::Advanced)
        } else if same_text(name, "Teacher") {
            Some(EventLevel::Teacher)
        } else {
            None
        }
    }
}

/// Each kind of event is read back from its own name.
pub proof fn lemma_type_name_round_trip(variant: EventType)
    ensures
        EventType::named(variant.name()) == Some(variant),
{
    reveal_strlit("Class");
    reveal_strlit("Party");
    assert("Class"@[0] != "Party"@[0]);
}

/// Each level is read back from its own name.
pub proof fn lemma_level_name_round_trip(variant: EventLevel)
    ensures
        EventLevel::named(variant.name()) == Some(variant),
{
    reveal_strlit("Beginner");
    reveal_strlit("Intermediate");
    reveal_strlit("Advanced");
    reveal_strlit("Teacher");
    assert("Beginner"@[0] != "Intermediate"@[0]);
    assert("Beginner"@[0] != "Advanced"@[0]);
    assert("Beginner"@[0] != "Teacher"@[0]);
    assert("Intermediate"@[0] != "Advanced"@[0]);
    assert("Intermediate"@[0] != "Teacher"@[0]);
    assert("Advanced"@[0] != "Teacher"@[0]);
}

/// Why a record could not be decoded. Where several fields are at fault, the
/// one that comes first in the record is reported.
#[derive(Clone, Copy, Debug, PartialEq, Eq, Structural)]
pub enum DecodeError {
    /// The start time is not a decimal number of at most sixty-four bits.
    BadStartTime,
    /// The end time is not a decimal number of at most sixty-four bits.
    BadEndTime,
    /// The type is not the name of a kind of event.
    UnknownType,
    /// The level is not the name of a level.
    UnknownLevel,
}

/// A request to create an event, field by field as it is exchanged.
pub struct EventInputRecord {
    pub title: String,
    pub description: String,
    pub start_time: String,
    pub end_time: String,
    pub location: String,
    pub event_type: String,
    pub instructor: String,
    pub level: String,
}

/// The mathematical content of an [`EventInputRecord`].
pub struct EventInputRecordView {
    pub title: Seq<char>,
    pub description: Seq<char>,
    pub start_time: Seq<char>,
    pub end_time: Seq<char>,
    pub location: Seq<char>,
    pub event_type: Seq<char>,
    pub instructor: Seq<char>,
    pub level: Seq<char>,
}

impl View for EventInputRecord {
    type V = EventInputRecordView;

    open spec fn view(&self) -> EventInputRecordView {
        EventInputRecordView {
            title: self.title@,
            description: self.description@,
            start_time: self.start_time@,
            end_time: self.end_time@,
            location: self.location@,
            event_type: self.event_type@,
            instructor: self.instructor@,
            level: self.level@,
        }
    }
}

/// A stored event, field by field as it is exchanged.
pub struct EventRecord {
    pub id: u16,
    pub title: String,
    pub description: String,
    pub start_time: String,
    pub end_time: String,
    pub location: String,
    pub event_type: String,
    pub instructor: String,
    pub level: String,
}

/// The mathematical content of an [`EventRecord`].
pub struct EventRecordView {
    pub id: int,
    pub input: EventInputRecordView,
}

impl View for EventRecord {
    type V = EventRecordView;

    open spec fn view(&self) -> EventRecordView {
        EventRecordView {
            id: self.id as int,
            input: EventInputRecordView {
                title: self.title@,
                description: self.description@,
                start_time: self.start_time@,
                end_time: self.end_time@,
                location: self.location@,
                event_type: self.event_type@,
                instructor: self.instructor@,
                level: self.level@,
            },
        }
    }
}

/// The exchanged form of the fields of an event.
pub open spec fn encoded_input(input: EventInputView) -> EventInputRecordView {
    EventInputRecordView {
        title: input.title,
        description: input.description,
        start_time: decimal_text(input.start_time as nat),
        end_time: decimal_text(input.end_time as nat),
        location: input.location,
        event_type: input.event_type.name(),
        instructor: input.instructor,
        level: input.level.name(),
    }
}

/// What a record of event fields decodes to: the fields, where both times
/// are numbers and both names are known; otherwise the first fault.
pub open spec fn decoded_input(record: EventInputRecordView) -> Result<
    EventInputView,
    DecodeError,
> {
    if parsed_u64(record.start_time).is_none() {
        Err(DecodeError::BadStartTime)
    } else if parsed_u64(record.end_time).is_none() {
        Err(DecodeError::BadEndTime)
    } else if EventType::named(record.event_type).is_none() {
        Err(DecodeError::UnknownType)
    } else if EventLevel::named(record.level).is_none() {
        Err(DecodeError::UnknownLevel)
    } else {
        Ok(
            EventInputView {
                title: record.title,
                description: record.description,
                start_time: parsed_u64(record.start_time).unwrap(),
                end_time: parsed_u64(record.end_time).unwrap(),
                location: record.location,
                event_type: EventType::named(record.event_type).unwrap(),
                instructor: record.instructor,
                level: EventLevel::named(record.level).unwrap(),
            },
        )
    }
}

/// The exchanged form of a stored event.
pub open spec fn encoded_event(event: EventView) -> EventRecordView {
    EventRecordView { id: event.id, input: encoded_input(event.input) }
}

/// What a record of a stored event decodes to.
pub open spec fn decoded_event(record: EventRecordView) -> Result<EventView, DecodeError> {
    match decoded_input(record.input) {
        Ok(input) => Ok(input.with_id(record.id)),
        Err(fault) => Err(fault),
    }
}

/// Writes the fields of an event as they are exchanged.
pub fn encode_input(input: &EventInput) -> (record: EventInputRecord)
    ensures
        record@ == encoded_input(input@),
{
    EventInputRecord {
        title: input.title.clone(),
        description: input.description.clone(),
        start_time: format_u64(input.start_time),
        end_time: format_u64(input.end_time),
        location: input.location.clone(),
        event_type: String::from_str(input.event_type.as_str()),
        instructor: input.instructor.clone(),
        level: String::from_str(input.level.as_str()),
    }
}

/// Reads the fields of an event from their exchanged form, or says which
/// field is at fault.
pub fn decode_input(record: EventInputRecord) -> (outcome: Result<EventInput, DecodeError>)
    ensures
        match outcome {
            Ok(input) => decoded_input(record@) == Ok::<EventInputView, DecodeError>(input@),
            Err(fault) => decoded_input(record@) == Err::<EventInputView, DecodeError>(fault),
        },
{
    let start_time = match parse_u64(record.start_time.as_str()) {
        Some(value) => value,
        None => {
            return Err(DecodeError::BadStartTime);
        },
    };
    let end_time = match parse_u64(record.end_time.as_str()) {
        Some(value) => value,
        None => {
            return Err(DecodeError::BadEndTime);
        },
    };
    let event_type = match EventType::from_name(record.event_type.as_str()) {
        Some(variant) => variant,
        None => {
            return Err(DecodeError::UnknownType);
        },
    };
    let level = match EventLevel::from_name(record.level.as_str()) {
        Some(variant) => variant,
        None => {
            return Err(DecodeError::UnknownLevel);
        },
    };
    Ok(
        EventInput {
            title: record.title,
            description: record.description,
            start_time,
            end_time,
            location: record.location,
            event_type,
            instructor: record.instructor,
            level,
        },
    )
}

/// Writes a stored event as it is exchanged.
pub fn encode_event(event: &Event) -> (record: EventRecord)
    ensures
        record@ == encoded_event(event@),
{
    EventRecord {
        id: event.id,
        title: event.title.clone(),
        description: event.description.clone(),
        start_time: format_u64(event.start_time),
        end_time: format_u64(event.end_time),
        location: event.location.clone(),
        event_type: String::from_str(event.event_type.as_str()),
        instructor: event.instructor.clone(),
        level: String::from_str(event.level.as_str()),
    }
}

/// Reads a stored event from its exchanged form, or says which field is at
/// fault.
pub fn decode_event(record: EventRecord) -> (outcome: Result<Event, DecodeError>)
    ensures
        match outcome {
            Ok(event) => decoded_event(record@) == Ok::<EventView, DecodeError>(event@),
            Err(fault) => decoded_event(record@) == Err::<EventView, DecodeError>(fault),
        },
{
    let id = record.id;
    let fields = EventInputRecord {
        title: record.title,
        description: record.description,
        start_time: record.start_time,
        end_time: record.end_time,
        location: record.location,
        event_type: record.event_type,
        instructor: record.instructor,
        level: record.level,
    };
    match decode_input(fields) {
        Ok(input) => Ok(Event::from_input(id, input)),
        Err(fault) => Err(fault),
    }
}

/// Encoding the fields of an event and decoding them again gives the same
/// fields, timestamps and variants included.
pub proof fn lemma_input_round_trip(input: EventInputView)
    ensures
        decoded_input(encoded_input(input)) == Ok::<EventInputView, DecodeError>(input),
{
    lemma_parse_inverts_format(input.start_time);
    lemma_parse_inverts_format(input.end_time);
    lemma_type_name_round_trip(input.event_type);
    lemma_level_name_round_trip(input.level);
}

/// Encoding a stored event and decoding it again gives an event equal to the
/// first in every field.
pub proof fn lemma_event_round_trip(event: EventView)
    ensures
        decoded_event(encoded_event(event)) == Ok::<EventView, DecodeError>(event),
{
    lemma_input_round_trip(event.input);
}

/// The views of a run of records, in the same order.
pub open spec fn record_views(records: Seq<EventRecord>) -> Seq<EventRecordView> {
    Seq::new(records.len(), |i: int| records[i]@)
}

/// The exchanged forms of a run of stored events, in the same order.
pub open spec fn encoded_events(events: Seq<EventView>) -> Seq<EventRecordView> {
    Seq::new(events.len(), |i: int| encoded_event(events[i]))
}

/// Writes every event of a list as it is exchanged, keeping the order.
pub fn encode_events(events: &Vec<Event>) -> (records: Vec<EventRecord>)
    ensures
        record_views(records@) == encoded_events(event_views(events@)),
{
    let mut records: Vec<EventRecord> = Vec::new();
    let mut i: usize = 0;
    while i < events.len()
        invariant
            i <= events.len(),
            records@.len() == i,
            forall|k: int| 0 <= k < i ==> (#[trigger] records@[k])@ == encoded_event(events@[k]@),
        decreases events.len() - i,
    {
        records.push(encode_event(&events[i]));
        i += 1;
    }
    assert(record_views(records@) =~= encoded_events(event_views(events@)));
    records
}

/// Why an event could not be added from its exchanged form.
#[derive(Clone, Copy, Debug, PartialEq, Eq, Structural)]
pub enum AddEventError {
    /// The record could not be decoded.
    Decode(DecodeError),
    /// The record is fine, but the store has no identifier left to give.
    IdsExhausted,
}

/// What adding an event from its exchanged form does to a state, and what it
/// returns: a record that does not decode, or one that comes when no
/// identifier is left, changes nothing.
pub open spec fn added_record(state: StoreState, record: EventInputRecordView) -> (
    StoreState,
    Result<u16, AddEventError>,
) {
    match decoded_input(record) {
        Err(fault) => (state, Err(AddEventError::Decode(fault))),
        Ok(input) => if state.has_room() {
            (state.add_event(input), Ok(state.next_event_id as u16))
        } else {
            (state, Err(AddEventError::IdsExhausted))
        },
    }
}

impl Contract {
    /// Adds the event that `record` describes. The record is decoded first;
    /// only if that succeeds, and an identifier is left, is anything changed.
    pub fn add_event_record(&mut self, record: EventInputRecord) -> (outcome: Result<
        u16,
        AddEventError,
    >)
        requires
            old(self)@.wf(),
        ensures
            (final(self)@, outcome) == added_record(old(self)@, record@),
            final(self)@.wf(),
    {
        match decode_input(record) {
            Err(fault) => Err(AddEventError::Decode(fault)),
            Ok(input) => match self.try_add_event(input) {
                Some(id) => Ok(id),
                None => Err(AddEventError::IdsExhausted),
            },
        }
    }
}

/// A record that does not decode is refused with the fault that decoding
/// found, and the state stays exactly as it was: no event is appended and the
/// counter does not move.
pub proof fn lemma_undecodable_record_changes_nothing(
    state: StoreState,
    record: EventInputRecordView,
)
    requires
        decoded_input(record).is_err(),
    ensures
        added_record(state, record).0 == state,
        decoded_input(record) matches Err(fault) && added_record(state, record).1 == Err::<
            u16,
            AddEventError,
        >(AddEventError::Decode(fault)),
{
}

/// A record whose type is not the name of a kind of event does not decode,
/// whatever its other fields hold.
pub proof fn lemma_unknown_type_does_not_decode(record: EventInputRecordView)
    requires
        EventType::named(record.event_type).is_none(),
    ensures
        decoded_input(record).is_err(),
{
}

} // verus!
