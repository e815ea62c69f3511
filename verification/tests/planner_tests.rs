use agent_core::planner::Planner;
use agent_core::types::now_ts;
use agent_core::types::Context;
use agent_core::types::Event;
use agent_core::types::Habit;
use agent_core::types::HabitFrequency;
use agent_core::types::Intent;

#[test]
fn test_build_context_summary() {
    let planner = Planner::new();
    let mut context = Context::new("test-user".to_string());
    context.current_location = Some("home".to_string());
    context.current_activity = Some("working".to_string());

    let summary = planner.build_context_summary(&context);
    assert!(summary.contains("test-user"));
    assert!(summary.contains("home"));
    assert!(summary.contains("working"));
}

#[test]
fn test_compress_events() {
    let planner = Planner::new();
    let events = vec![
        Event::new("user_input".to_string(), "Hello".to_string(), 500),
        Event::new("user_input".to_string(), "How are you".to_string(), 600),
        Event::new("agent_response".to_string(), "I'm good".to_string(), 500),
    ];

    let summary = planner.compress_events(&events);
    assert!(summary.contains("user_input"));
    assert!(summary.contains("agent_response"));
    assert!(summary.contains("2 occurrence"));
}

#[test]
fn test_suggest_actions() {
    let planner = Planner::new();
    let mut context = Context::new("test-user".to_string());

    // Add a habit that was completed a while ago
    let mut habit = Habit::new(
        "Exercise".to_string(),
        "Daily exercise".to_string(),
        HabitFrequency::Daily,
    );
    habit.last_completed = Some(now_ts() - 2 * 24 * 3600);
    context.active_habits.push(habit);

    let suggestions = planner.suggest_actions(&context);
    assert!(!suggestions.is_empty());
    assert!(suggestions.iter().any(|s| s.contains("Exercise")));
}

#[test]
fn test_evaluate_intent() {
    let planner = Planner::new();
    let mut context = Context::new("test-user".to_string());
    context.current_activity = Some("sleeping".to_string());

    let intent = Intent::new(
        "device.control".to_string(),
        800,
        Vec::new(),
        "Control device".to_string(),
    );

    let (appropriate, reason) = planner.evaluate_intent(&intent, &context);
    assert!(!appropriate);
    assert!(reason.contains("sleeping"));
}

#[test]
fn evaluate_intent_low_confidence() {
    let planner = Planner::new();
    let context = Context::new("test-user".to_string());
    let intent = Intent::new(
        "weather.query".to_string(),
        400,
        Vec::new(),
        "Weak guess".to_string(),
    );

    let (appropriate, reason) = planner.evaluate_intent(&intent, &context);
    assert!(!appropriate);
    assert_eq!(reason, "Low confidence: 400");
}

#[test]
fn evaluate_intent_approves_in_ordinary_context() {
    let planner = Planner::new();
    let mut context = Context::new("test-user".to_string());
    context.current_activity = Some("working".to_string());
    let intent = Intent::new(
        "device.control".to_string(),
        900,
        Vec::new(),
        "Control device".to_string(),
    );

    let (appropriate, reason) = planner.evaluate_intent(&intent, &context);
    assert!(appropriate);
    assert_eq!(reason, "Intent appears appropriate for current context");
}

#[test]
fn evaluate_intent_sleeping_vetoes_only_devices() {
    let planner = Planner::new();
    let mut context = Context::new("test-user".to_string());
    context.current_activity = Some("sleeping".to_string());
    let intent = Intent::new(
        "weather.query".to_string(),
        900,
        Vec::new(),
        "Morning forecast".to_string(),
    );

    let (appropriate, _) = planner.evaluate_intent(&intent, &context);
    assert!(appropriate);
}

#[test]
fn summary_shows_events_newest_first() {
    let planner = Planner::new();
    let mut context = Context::new("u".to_string());
    let mut older = Event::new("alpha".to_string(), "first thing".to_string(), 500);
    older.timestamp = 1_700_000_000;
    let mut newer = Event::new("beta".to_string(), "second thing".to_string(), 500);
    newer.timestamp = 1_700_000_060;
    context.recent_events.push(older);
    context.recent_events.push(newer);
    context.timestamp = 1_700_000_100;

    let summary = planner.build_context_summary(&context);
    let beta_at = summary.find("beta").unwrap();
    let alpha_at = summary.find("alpha").unwrap();
    assert!(beta_at < alpha_at, "newest event must come first:\n{}", summary);
    assert!(summary.contains("Recent events:"));
}

#[test]
fn summary_shows_habits_and_never() {
    let planner = Planner::new();
    let mut context = Context::new("u".to_string());
    context.timestamp = 1_700_000_000;
    let habit = Habit::new("Stretch".to_string(), "Morning stretch".to_string(), HabitFrequency::Weekly);
    context.active_habits.push(habit);

    let summary = planner.build_context_summary(&context);
    assert!(summary.contains("Active habits:"));
    assert!(summary.contains("Stretch (Weekly): last completed never"));
}

#[test]
fn compress_events_empty() {
    let planner = Planner::new();
    let summary = planner.compress_events(&Vec::new());
    assert_eq!(summary, "No recent events.");
}

#[test]
fn compress_events_picks_most_important() {
    let planner = Planner::new();
    let events = vec![
        Event::new("sensor".to_string(), "minor blip".to_string(), 100),
        Event::new("sensor".to_string(), "major alarm".to_string(), 900),
        Event::new("sensor".to_string(), "routine ping".to_string(), 200),
    ];
    let summary = planner.compress_events(&events);
    assert!(summary.contains("sensor: 3 occurrence(s)"));
    assert!(summary.contains("Most important: major alarm"));
}

#[test]
fn suggest_actions_start_and_break() {
    let planner = Planner::new();
    let mut context = Context::new("u".to_string());
    context.current_activity = Some("working".to_string());
    let habit = Habit::new("Read".to_string(), "Evening reading".to_string(), HabitFrequency::Daily);
    context.active_habits.push(habit);

    let suggestions = planner.suggest_actions(&context);
    assert_eq!(suggestions.len(), 2);
    assert_eq!(suggestions[0], "Start habit: Read");
    assert_eq!(suggestions[1], "Take a break?");
}

#[test]
fn suggest_actions_recently_done_habit_is_quiet() {
    let planner = Planner::new();
    let mut context = Context::new("u".to_string());
    let mut habit = Habit::new("Walk".to_string(), "Daily walk".to_string(), HabitFrequency::Daily);
    habit.last_completed = Some(now_ts() - 3600);
    context.active_habits.push(habit);

    let suggestions = planner.suggest_actions(&context);
    assert!(suggestions.is_empty());
}
