use event_store::{AddEventError, Call, Contract, DecodeError, EventInputRecord, Reply};

fn record(title: &str, event_type: &str) -> EventInputRecord {
    EventInputRecord {
        title: title.to_string(),
        description: "Text".to_string(),
        start_time: "1000".to_string(),
        end_time: "2000".to_string(),
        location: "Place".to_string(),
        event_type: event_type.to_string(),
        instructor: "Someone".to_string(),
        level: "Beginner".to_string(),
    }
}

#[test]
fn reading_the_greeting_answers_and_does_nothing_else() {
    let mut contract = Contract::default();
    let receipt = contract.handle(Call::GetGreeting);
    assert!(matches!(receipt.reply, Ok(Reply::Greeting(ref greeting)) if greeting == "Hello"));
    assert_eq!(receipt.log, None);
    assert!(!receipt.persist);
    assert_eq!(contract.get_greeting(), "Hello");
    assert_eq!(contract.next_event_id(), 1);
}

#[test]
fn setting_the_greeting_logs_the_new_value_and_asks_to_save() {
    let mut contract = Contract::default();
    let receipt = contract.handle(Call::SetGreeting("howdy".to_string()));
    assert!(matches!(receipt.reply, Ok(Reply::Done)));
    assert_eq!(receipt.log.as_deref(), Some("Saving greeting: howdy"));
    assert!(receipt.persist);
    assert_eq!(contract.get_greeting(), "howdy");
    assert!(contract.get_events().is_empty());
}

#[test]
fn adding_an_event_answers_its_id_and_logs_its_title() {
    let mut contract = Contract::default();
    let first = contract.handle(Call::AddEvent(record("Rust Workshop", "Class")));
    assert!(matches!(first.reply, Ok(Reply::EventId(1))));
    assert_eq!(first.log.as_deref(), Some("Adding new event: Rust Workshop"));
    assert!(first.persist);
    let second = contract.handle(Call::AddEvent(record("Social", "Party")));
    assert!(matches!(second.reply, Ok(Reply::EventId(2))));
    assert_eq!(second.log.as_deref(), Some("Adding new event: Social"));
    assert_eq!(contract.get_events().len(), 2);
    assert_eq!(contract.next_event_id(), 3);
}

#[test]
fn reading_the_events_answers_them_in_order_and_does_nothing_else() {
    let mut contract = Contract::default();
    contract.handle(Call::AddEvent(record("One", "Class")));
    contract.handle(Call::AddEvent(record("Two", "Party")));
    let receipt = contract.handle(Call::GetEvents);
    assert_eq!(receipt.log, None);
    assert!(!receipt.persist);
    match receipt.reply {
        Ok(Reply::Events(records)) => {
            assert_eq!(records.len(), 2);
            assert_eq!(records[0].id, 1);
            assert_eq!(records[0].title, "One");
            assert_eq!(records[0].event_type, "Class");
            assert_eq!(records[0].start_time, "1000");
            assert_eq!(records[1].id, 2);
            assert_eq!(records[1].title, "Two");
            assert_eq!(records[1].event_type, "Party");
            assert_eq!(records[1].end_time, "2000");
        }
        _ => panic!("no events in the reply"),
    }
    assert_eq!(contract.get_events().len(), 2);
    assert_eq!(contract.next_event_id(), 3);
}

#[test]
fn rejected_event_leaves_no_log_line_and_nothing_to_save() {
    let mut contract = Contract::default();
    let receipt = contract.handle(Call::AddEvent(record("Mystery", "Unknown")));
    assert!(matches!(receipt.reply, Err(AddEventError::Decode(DecodeError::UnknownType))));
    assert_eq!(receipt.log, None);
    assert!(!receipt.persist);
    assert!(contract.get_events().is_empty());
    assert_eq!(contract.next_event_id(), 1);
}

#[test]
fn event_for_a_full_store_leaves_no_log_line_and_nothing_to_save() {
    let mut contract = Contract::restore(String::new(), Vec::new(), 65535).unwrap();
    let receipt = contract.handle(Call::AddEvent(record("Late", "Class")));
    assert!(matches!(receipt.reply, Err(AddEventError::IdsExhausted)));
    assert_eq!(receipt.log, None);
    assert!(!receipt.persist);
    assert!(contract.get_events().is_empty());
}
