use free_socks::event::filter_manager::{
    EventFilterState, Filter, FilterManager, SubscriptionChange,
};
use free_socks::EventType;

fn filter(name: &str, value: &str) -> Filter {
    Filter {
        name: name.to_string(),
        value: value.to_string(),
    }
}

#[test]
fn events_are_added_once() {
    let mut manager = FilterManager::default();
    manager.add_events(vec![EventType::Api, EventType::Dtmf, EventType::Api]);
    manager.add_events(vec![EventType::Dtmf, EventType::Log]);
    let state = EventFilterState::from(manager);
    assert_eq!(state.events(), &[EventType::Api, EventType::Dtmf, EventType::Log]);
    assert!(state.filters().is_empty());
}

#[test]
fn events_are_removed() {
    let mut manager = FilterManager::default();
    manager.add_events(vec![EventType::Api, EventType::Dtmf, EventType::Log]);
    manager.remove_events(vec![EventType::Dtmf, EventType::Trap]);
    let state = EventFilterState::from(manager);
    assert_eq!(state.events(), &[EventType::Api, EventType::Log]);
}

#[test]
fn events_of_filters_are_subscribed_to() {
    let mut manager = FilterManager::default();
    manager.add_events(vec![EventType::Api]);
    manager.add_filter(filter("a", "1"), vec![EventType::Dtmf]);
    manager.add_filter(filter("a", "2"), vec![EventType::Api, EventType::Log]);
    manager.add_filter(filter("a", "1"), vec![EventType::Trap]);
    let copy = EventFilterState::from(manager.clone());
    manager.remove_events(vec![EventType::Api, EventType::Dtmf]);
    let state = EventFilterState::from(manager);
    for state in [&copy, &state] {
        let mut names: Vec<String> = state.events().iter().map(|ty| ty.to_string()).collect();
        names.sort();
        assert_eq!(names, ["API", "DTMF", "LOG", "TRAP"]);
        assert_eq!(state.filters(), &[filter("a", "1"), filter("a", "2")]);
    }
}

#[test]
fn filters_are_removed() {
    let mut manager = FilterManager::default();
    manager.add_events(vec![EventType::Api]);
    manager.add_filter(filter("a", "1"), vec![EventType::Dtmf]);
    manager.add_filter(filter("a", "2"), vec![EventType::Log]);
    manager.remove_filter(("a".to_string(), "1".to_string()));
    manager.remove_filter(("b".to_string(), "2".to_string()));
    let state = EventFilterState::from(manager);
    assert_eq!(state.events(), &[EventType::Api, EventType::Log]);
    assert_eq!(state.filters(), &[filter("a", "2")]);
}

fn state(events: &[EventType], filters: &[(&str, &str)]) -> EventFilterState {
    let mut manager = FilterManager::default();
    manager.add_events(events.to_vec());
    for (name, value) in filters {
        manager.add_filter(filter(name, value), vec![]);
    }
    EventFilterState::from(manager)
}

fn shown(changes: &[SubscriptionChange]) -> Vec<String> {
    changes
        .iter()
        .map(|change| match change {
            SubscriptionChange::AddFilter(filter) => format!("+{}={}", filter.name, filter.value),
            SubscriptionChange::RemoveFilter(filter) => {
                format!("-{}={}", filter.name, filter.value)
            }
            SubscriptionChange::AddEvents(events) => {
                let names: Vec<String> = events.iter().map(|ty| ty.to_string()).collect();
                format!("+{}", names.join(" "))
            }
            SubscriptionChange::ClearEvents => "clear".to_string(),
        })
        .collect()
}

#[test]
fn the_same_state_needs_no_changes() {
    let a = state(&[EventType::Api, EventType::Log], &[("a", "1")]);
    let b = state(&[EventType::Log, EventType::Api], &[("a", "1")]);
    assert!(a.changes(&b).is_empty());
}

#[test]
fn new_events_are_added() {
    let a = state(&[EventType::Api], &[]);
    let b = state(&[EventType::Api, EventType::Log, EventType::Dtmf], &[]);
    assert_eq!(shown(&a.changes(&b)), ["+LOG DTMF"]);
    assert_eq!(shown(&b.changes(&a)), ["clear", "+API"]);
    assert_eq!(shown(&b.changes(&state(&[], &[]))), ["clear"]);
}

#[test]
fn filters_are_added_first_and_removed_last() {
    let a = state(&[EventType::Api], &[("a", "1"), ("b", "1")]);
    let b = state(&[EventType::Log], &[("b", "1"), ("a", "2"), ("c", "3")]);
    assert_eq!(
        shown(&a.changes(&b)),
        ["+a=2", "+c=3", "clear", "+LOG", "-a=1"]
    );
}
