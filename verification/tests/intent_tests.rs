use agent_core::intent::IntentGenerator;
use agent_core::json::from_json;
use agent_core::types::Intent;
use agent_core::types::ParamValue;
use agent_core::AgentError;

#[test]
fn test_generate_intent() {
    let generator = IntentGenerator::new();
    let mut params = Vec::new();
    params.push(("device".to_string(), ParamValue::Str("light".to_string())));

    let intent = generator
        .generate(
            "device.control".to_string(),
            800,
            params,
            "User wants to control a device".to_string(),
        )
        .unwrap();

    assert_eq!(intent.intent_type, "device.control");
    assert_eq!(intent.confidence, 800);
    assert!(intent.requires_permission);
    assert_eq!(intent.target_module, Some("device".to_string()));
}

#[test]
fn test_requires_permission() {
    let generator = IntentGenerator::new();

    assert!(generator.requires_permission("device.control"));
    assert!(generator.requires_permission("message.send"));
    assert!(!generator.requires_permission("weather.query"));
    assert!(!generator.requires_permission("time.query"));
}

#[test]
fn test_parse_from_text_reminder() {
    let generator = IntentGenerator::new();
    let intents = generator.parse_from_text("remind me to call mom");

    assert_eq!(intents.len(), 1);
    assert_eq!(intents[0].intent_type, "reminder.create");
}

#[test]
fn test_parse_from_text_weather() {
    let generator = IntentGenerator::new();
    let intents = generator.parse_from_text("what's the weather like today?");

    assert_eq!(intents.len(), 1);
    assert_eq!(intents[0].intent_type, "weather.query");
    assert!(!intents[0].requires_permission);
}

#[test]
fn test_parse_from_text_device_control() {
    let generator = IntentGenerator::new();
    let intents = generator.parse_from_text("turn on the lights");

    assert_eq!(intents.len(), 1);
    assert_eq!(intents[0].intent_type, "device.control");
    assert!(intents[0].requires_permission);
}

#[test]
fn test_validate_intent() {
    let generator = IntentGenerator::new();
    let mut params = Vec::new();
    params.push(("test".to_string(), ParamValue::Str("value".to_string())));

    let intent = generator
        .generate("test.action".to_string(), 800, params, "Testing".to_string())
        .unwrap();

    assert!(generator.validate(&intent).is_ok());
}

#[test]
fn test_to_json() {
    let generator = IntentGenerator::new();
    let mut params = Vec::new();
    params.push(("device".to_string(), ParamValue::Str("light".to_string())));

    let intent = generator
        .generate("device.control".to_string(), 800, params, "Testing".to_string())
        .unwrap();

    let json = generator.to_json(&intent).unwrap();
    assert!(json.contains("device.control"));
    assert!(json.contains("light"));
}

#[test]
fn generate_boundary_confidence() {
    let generator = IntentGenerator::new();
    // Exactly at the floor: succeeds.
    assert!(generator
        .generate("weather.query".to_string(), 500, Vec::new(), "boundary".to_string())
        .is_ok());
    // Just below the floor: fails with an invalid-intent error.
    let err = generator
        .generate("weather.query".to_string(), 499, Vec::new(), "boundary".to_string())
        .unwrap_err();
    assert!(matches!(err, AgentError::InvalidIntent(_)));
    // The top of the range succeeds too.
    assert!(generator
        .generate("weather.query".to_string(), 1000, Vec::new(), "top".to_string())
        .is_ok());
}

#[test]
fn generate_error_message_names_the_floor() {
    let generator = IntentGenerator::new();
    let err = generator
        .generate("weather.query".to_string(), 400, Vec::new(), "too low".to_string())
        .unwrap_err();
    match err {
        AgentError::InvalidIntent(msg) => {
            assert_eq!(msg, "Confidence 400 below minimum 500");
        }
        other => panic!("unexpected error: {:?}", other),
    }
}

#[test]
fn sensitive_prefix_needs_the_dot() {
    let generator = IntentGenerator::new();
    // "device" without the dot and unrelated words never count as sensitive.
    assert!(!generator.requires_permission("device"));
    assert!(!generator.requires_permission("devicecontrol"));
    assert!(generator.requires_permission("camera.capture"));
    assert!(generator.requires_permission("notification.push"));
}

#[test]
fn generate_without_dot_leaves_module_unset() {
    let generator = IntentGenerator::new();
    let intent = generator
        .generate("ping".to_string(), 900, Vec::new(), "bare type".to_string())
        .unwrap();
    assert_eq!(intent.target_module, None);
    assert!(!intent.requires_permission);
}

#[test]
fn validate_rejects_bad_fields() {
    let generator = IntentGenerator::new();
    let mut intent = Intent::new("x.y".to_string(), 800, Vec::new(), "why".to_string());

    intent.confidence = 1001;
    match generator.validate(&intent).unwrap_err() {
        AgentError::InvalidIntent(msg) => assert_eq!(msg, "Confidence must be between 0.0 and 1.0"),
        other => panic!("unexpected error: {:?}", other),
    }

    intent.confidence = 800;
    intent.intent_type = String::new();
    match generator.validate(&intent).unwrap_err() {
        AgentError::InvalidIntent(msg) => assert_eq!(msg, "Intent type cannot be empty"),
        other => panic!("unexpected error: {:?}", other),
    }

    intent.intent_type = "x.y".to_string();
    intent.reasoning = String::new();
    match generator.validate(&intent).unwrap_err() {
        AgentError::InvalidIntent(msg) => assert_eq!(msg, "Reasoning cannot be empty"),
        other => panic!("unexpected error: {:?}", other),
    }
}

#[test]
fn json_round_trip_plain() {
    let generator = IntentGenerator::new();
    let mut params = Vec::new();
    params.push(("device".to_string(), ParamValue::Str("light".to_string())));
    params.push(("level".to_string(), ParamValue::Int(-42)));
    params.push(("urgent".to_string(), ParamValue::Bool(true)));
    params.push(("note".to_string(), ParamValue::Null));
    let intent = generator
        .generate("device.control".to_string(), 750, params, "Dim the light".to_string())
        .unwrap();

    let json = generator.to_json(&intent).unwrap();
    let back = from_json(&json).expect("rendering must parse");
    assert_eq!(back, intent);
}

#[test]
fn json_round_trip_escapes() {
    let generator = IntentGenerator::new();
    let mut params = Vec::new();
    params.push(("quote\"key".to_string(), ParamValue::Str("back\\slash \"x\"".to_string())));
    let intent = generator
        .generate(
            "network.send".to_string(),
            999,
            params,
            "text with \"quotes\" and \\ marks".to_string(),
        )
        .unwrap();

    let json = generator.to_json(&intent).unwrap();
    let back = from_json(&json).expect("escaped rendering must parse");
    assert_eq!(back, intent);
}

#[test]
fn json_round_trip_extreme_numbers() {
    let mut intent = Intent::new("time.query".to_string(), 0, Vec::new(), "edge".to_string());
    intent.created_at = i64::MIN;
    let generator = IntentGenerator::new();
    let json = generator.to_json(&intent).unwrap();
    let back = from_json(&json).expect("minimal timestamp must parse");
    assert_eq!(back, intent);

    intent.created_at = i64::MAX;
    intent.confidence = u32::MAX;
    let json = generator.to_json(&intent).unwrap();
    let back = from_json(&json).expect("maximal numbers must parse");
    assert_eq!(back, intent);
}

#[test]
fn from_json_rejects_malformed_input() {
    assert!(from_json("").is_none());
    assert!(from_json("{}").is_none());
    assert!(from_json("not json at all").is_none());
    // A rendering with trailing noise is refused.
    let generator = IntentGenerator::new();
    let intent = Intent::new("a.b".to_string(), 600, Vec::new(), "r".to_string());
    let mut json = generator.to_json(&intent).unwrap();
    json.push(' ');
    assert!(from_json(&json).is_none());
}

#[test]
fn parse_from_text_two_triggers() {
    let generator = IntentGenerator::new();
    let intents = generator.parse_from_text("what's the weather? also turn on the fan");
    assert_eq!(intents.len(), 2);
    assert_eq!(intents[0].intent_type, "device.control");
    assert_eq!(intents[1].intent_type, "weather.query");
    match &intents[0].parameters[0] {
        (key, ParamValue::Str(action)) => {
            assert_eq!(key, "action");
            assert_eq!(action, "on");
        }
        other => panic!("unexpected parameter: {:?}", other),
    }
}
