use event_store::notice::{adding_event, saving_greeting};
use event_store::{Contract, Event, EventInput, EventLevel, EventType};

fn input(title: &str, event_type: EventType, level: EventLevel, start: u64, end: u64) -> EventInput {
    EventInput {
        title: title.to_string(),
        description: format!("About {title}"),
        start_time: start,
        end_time: end,
        location: "Hall".to_string(),
        event_type,
        instructor: "Kim".to_string(),
        level,
    }
}

fn stored(id: u16) -> Event {
    Event {
        id,
        title: format!("Event {id}"),
        description: String::new(),
        start_time: 0,
        end_time: 0,
        location: String::new(),
        event_type: EventType::Party,
        instructor: String::new(),
        level: EventLevel::Teacher,
    }
}

#[test]
fn test_should_return_default_greeting_when_no_greeting_is_set() {
    let contract = Contract::default();
    assert_eq!(contract.get_greeting(), "Hello");
}

#[test]
fn test_should_set_and_get_greeting_when_greeting_is_updated() {
    let mut contract = Contract::default();
    contract.set_greeting("howdy".to_string());
    assert_eq!(contract.get_greeting(), "howdy");
}

#[test]
fn lib_test_should_store_event_when_event_is_added() {
    let mut contract = Contract::default();
    let event = EventInput {
        title: "Test Event".to_string(),
        description: "Test Description".to_string(),
        start_time: 1000,
        end_time: 2000,
        location: "Test Location".to_string(),
        event_type: EventType::Class,
        instructor: "Test Instructor".to_string(),
        level: EventLevel::Beginner,
    };

    let result = contract.add_event(event);
    let events = contract.get_events();
    assert_eq!(events.len(), 1);
    assert_eq!(events[0].title, "Test Event");
    assert_eq!(result, 1);
}

#[test]
fn lib_test_should_store_multiple_events_in_order_when_events_are_added() {
    let mut contract = Contract::default();
    let event1 = EventInput {
        title: "Event 1".to_string(),
        description: "First event".to_string(),
        start_time: 1000,
        end_time: 2000,
        location: "Location 1".to_string(),
        event_type: EventType::Class,
        instructor: "Instructor 1".to_string(),
        level: EventLevel::Beginner,
    };

    let event2 = EventInput {
        title: "Event 2".to_string(),
        description: "Second event".to_string(),
        start_time: 3000,
        end_time: 4000,
        location: "Location 2".to_string(),
        event_type: EventType::Party,
        instructor: "Instructor 2".to_string(),
        level: EventLevel::Intermediate,
    };

    let result1 = contract.add_event(event1);
    let result2 = contract.add_event(event2);

    let events = contract.get_events();
    assert_eq!(events.len(), 2);
    assert_eq!(events[0].title, "Event 1");
    assert_eq!(events[1].title, "Event 2");
    assert_eq!(result1, 1);
    assert_eq!(result2, 2);
}

#[test]
fn fresh_store_has_hello_no_events_and_counter_one() {
    let contract = Contract::default();
    assert_eq!(contract.get_greeting(), "Hello");
    assert!(contract.get_events().is_empty());
    assert_eq!(contract.next_event_id(), 1);
    assert!(contract.has_room());
}

#[test]
fn later_greeting_replaces_earlier_one() {
    let mut contract = Contract::default();
    contract.set_greeting("first".to_string());
    contract.set_greeting("second".to_string());
    assert_eq!(contract.get_greeting(), "second");
}

#[test]
fn greeting_may_be_empty_and_leaves_events_alone() {
    let mut contract = Contract::default();
    contract.add_event(input("A", EventType::Class, EventLevel::Advanced, 1, 2));
    contract.set_greeting(String::new());
    assert_eq!(contract.get_greeting(), "");
    assert_eq!(contract.get_events().len(), 1);
    assert_eq!(contract.get_events()[0].id, 1);
    assert_eq!(contract.next_event_id(), 2);
}

#[test]
fn added_event_keeps_every_field() {
    let mut contract = Contract::default();
    let id = contract.add_event(EventInput {
        title: "Evening social".to_string(),
        description: String::new(),
        start_time: u64::MAX,
        end_time: 0,
        location: "Pier 4".to_string(),
        event_type: EventType::Party,
        instructor: "Ana".to_string(),
        level: EventLevel::Teacher,
    });
    assert_eq!(id, 1);
    let event = &contract.get_events()[0];
    assert_eq!(event.id, 1);
    assert_eq!(event.title, "Evening social");
    assert_eq!(event.description, "");
    assert_eq!(event.start_time, u64::MAX);
    assert_eq!(event.end_time, 0);
    assert_eq!(event.location, "Pier 4");
    assert_eq!(event.event_type, EventType::Party);
    assert_eq!(event.instructor, "Ana");
    assert_eq!(event.level, EventLevel::Teacher);
}

#[test]
fn ids_count_up_from_one_in_call_order() {
    let mut contract = Contract::default();
    for n in 1..=300u16 {
        let title = format!("Event {n}");
        let id = contract.add_event(input(&title, EventType::Class, EventLevel::Beginner, 0, 0));
        assert_eq!(id, n);
        assert_eq!(contract.next_event_id(), n + 1);
    }
    let events = contract.get_events();
    assert_eq!(events.len(), 300);
    for (k, event) in events.iter().enumerate() {
        assert_eq!(usize::from(event.id), k + 1);
        assert_eq!(event.title, format!("Event {}", k + 1));
    }
}

#[test]
fn two_events_scenario() {
    let mut contract = Contract::default();
    let first = contract.add_event(input("Event 1", EventType::Class, EventLevel::Beginner, 1000, 2000));
    let second =
        contract.add_event(input("Event 2", EventType::Party, EventLevel::Intermediate, 3000, 4000));
    assert_eq!(first, 1);
    assert_eq!(second, 2);
    let events = contract.get_events();
    assert_eq!(events.len(), 2);
    assert_eq!(events[0].id, 1);
    assert_eq!(events[0].title, "Event 1");
    assert_eq!(events[0].event_type, EventType::Class);
    assert_eq!(events[0].level, EventLevel::Beginner);
    assert_eq!(events[0].start_time, 1000);
    assert_eq!(events[0].end_time, 2000);
    assert_eq!(events[1].id, 2);
    assert_eq!(events[1].title, "Event 2");
    assert_eq!(events[1].event_type, EventType::Party);
    assert_eq!(events[1].level, EventLevel::Intermediate);
    assert_eq!(events[1].start_time, 3000);
    assert_eq!(events[1].end_time, 4000);
}

#[test]
fn try_add_event_assigns_the_counter_while_there_is_room() {
    let mut contract = Contract::default();
    let id = contract.try_add_event(input("A", EventType::Class, EventLevel::Beginner, 5, 6));
    assert_eq!(id, Some(1));
    assert_eq!(contract.get_events().len(), 1);
    assert_eq!(contract.next_event_id(), 2);
}

#[test]
fn last_identifier_is_65534_and_then_the_store_is_full() {
    let mut contract = Contract::restore("hi".to_string(), Vec::new(), 65534).unwrap();
    assert!(contract.has_room());
    let id = contract.try_add_event(input("Last", EventType::Class, EventLevel::Beginner, 0, 0));
    assert_eq!(id, Some(65534));
    assert_eq!(contract.next_event_id(), 65535);
    assert!(!contract.has_room());
    let refused = contract.try_add_event(input("Late", EventType::Class, EventLevel::Beginner, 0, 0));
    assert_eq!(refused, None);
    assert_eq!(contract.get_events().len(), 1);
    assert_eq!(contract.next_event_id(), 65535);
    assert_eq!(contract.get_greeting(), "hi");
}

#[test]
fn restore_takes_well_formed_parts_as_they_are() {
    let contract =
        Contract::restore("Ahoy".to_string(), vec![stored(2), stored(5), stored(9)], 10).unwrap();
    assert_eq!(contract.get_greeting(), "Ahoy");
    assert_eq!(contract.next_event_id(), 10);
    let ids: Vec<u16> = contract.get_events().iter().map(|event| event.id).collect();
    assert_eq!(ids, vec![2, 5, 9]);
    assert_eq!(contract.get_events()[1].title, "Event 5");
}

#[test]
fn restore_then_add_continues_from_the_counter() {
    let mut contract = Contract::restore("Ahoy".to_string(), vec![stored(1), stored(2)], 7).unwrap();
    let id = contract.add_event(input("Next", EventType::Party, EventLevel::Advanced, 1, 1));
    assert_eq!(id, 7);
    let ids: Vec<u16> = contract.get_events().iter().map(|event| event.id).collect();
    assert_eq!(ids, vec![1, 2, 7]);
    assert_eq!(contract.next_event_id(), 8);
}

#[test]
fn restore_refuses_a_counter_that_is_not_above_every_id() {
    assert!(Contract::restore(String::new(), vec![stored(1), stored(2)], 2).is_none());
    assert!(Contract::restore(String::new(), vec![stored(1)], 0).is_none());
    assert!(Contract::restore(String::new(), vec![stored(65535)], 65535).is_none());
}

#[test]
fn restore_refuses_ids_that_repeat_or_go_down() {
    assert!(Contract::restore(String::new(), vec![stored(3), stored(3)], 10).is_none());
    assert!(Contract::restore(String::new(), vec![stored(1), stored(4), stored(2)], 10).is_none());
}

#[test]
fn restore_accepts_an_empty_store_with_any_counter() {
    assert!(Contract::restore(String::new(), Vec::new(), 0).is_some());
    assert!(Contract::restore(String::new(), Vec::new(), 65535).is_some());
}

#[test]
fn log_lines_are_worded_as_expected() {
    assert_eq!(saving_greeting("howdy"), "Saving greeting: howdy");
    assert_eq!(saving_greeting(""), "Saving greeting: ");
    assert_eq!(adding_event("Rust Workshop"), "Adding new event: Rust Workshop");
}

#[test]
fn stored_form_of_an_input_copies_every_field_under_the_given_id() {
    let event = Event::from_input(41, input("Milonga", EventType::Party, EventLevel::Advanced, 7, 9));
    assert_eq!(event.id, 41);
    assert_eq!(event.title, "Milonga");
    assert_eq!(event.description, "About Milonga");
    assert_eq!(event.start_time, 7);
    assert_eq!(event.end_time, 9);
    assert_eq!(event.location, "Hall");
    assert_eq!(event.event_type, EventType::Party);
    assert_eq!(event.instructor, "Kim");
    assert_eq!(event.level, EventLevel::Advanced);
}
