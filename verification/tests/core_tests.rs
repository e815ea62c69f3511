use agent_core::types::Event;
use agent_core::types::Habit;
use agent_core::types::HabitFrequency;
use agent_core::types::ParamValue;

#[test]
fn test_module_structure() {
    // Basic sanity check that modules compile
    assert!(true);
}

#[test]
fn event_metadata_replaces_existing_keys() {
    let event = Event::new("sensor".to_string(), "reading".to_string(), 500)
        .with_metadata("room".to_string(), ParamValue::Str("kitchen".to_string()))
        .with_metadata("room".to_string(), ParamValue::Str("hall".to_string()))
        .with_metadata("level".to_string(), ParamValue::Int(3));

    assert_eq!(event.metadata.len(), 2);
    assert_eq!(event.metadata[0].0, "room");
    assert_eq!(event.metadata[0].1, ParamValue::Str("hall".to_string()));
    assert_eq!(event.metadata[1].0, "level");
}

#[test]
fn habit_completion_counts_up() {
    let mut habit = Habit::new(
        "Water plants".to_string(),
        "Twice a week".to_string(),
        HabitFrequency::Custom("every 3 days".to_string()),
    );
    assert_eq!(habit.completion_count, 0);
    assert!(habit.last_completed.is_none());
    habit.complete();
    habit.complete();
    assert_eq!(habit.completion_count, 2);
    assert!(habit.last_completed.is_some());
}
