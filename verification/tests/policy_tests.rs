use agent_core::policy::Permission;
use agent_core::policy::PolicyEngine;
use agent_core::types::now_ts;
use agent_core::types::Intent;
use agent_core::AgentError;

fn intent(intent_type: &str) -> Intent {
    Intent::new(intent_type.to_string(), 800, Vec::new(), "Control device".to_string())
}

#[test]
fn test_check_intent_no_permission_required() {
    let engine = PolicyEngine::new(vec![]);
    let intent = Intent::new(
        "weather.query".to_string(),
        900,
        Vec::new(),
        "User asking about weather".to_string(),
    );

    assert!(engine.check_intent(&intent).is_ok());
}

#[test]
fn test_check_intent_with_permission() {
    let mut engine = PolicyEngine::new(vec!["device".to_string()]);

    let permission = Permission {
        module: "device".to_string(),
        actions: vec!["device.control".to_string()],
        scope: vec![],
        granted_at: now_ts(),
        expires_at: Some(now_ts() + 3600),
    };
    engine.grant_permission(permission);

    let intent = intent("device.control").with_permission(true).with_target_module(
        "device".to_string(),
    );

    assert!(engine.check_intent(&intent).is_ok());
}

#[test]
fn test_check_intent_without_permission() {
    let engine = PolicyEngine::new(vec!["device".to_string()]);

    let intent = intent("device.control").with_permission(true).with_target_module(
        "device".to_string(),
    );

    assert!(engine.check_intent(&intent).is_err());
}

#[test]
fn test_expired_permission() {
    let mut engine = PolicyEngine::new(vec!["device".to_string()]);

    let permission = Permission {
        module: "device".to_string(),
        actions: vec!["device.control".to_string()],
        scope: vec![],
        granted_at: now_ts() - 7200,
        expires_at: Some(now_ts() - 3600),
    };
    engine.grant_permission(permission);

    let intent = intent("device.control").with_permission(true).with_target_module(
        "device".to_string(),
    );

    assert!(engine.check_intent(&intent).is_err());
}

#[test]
fn test_clear_expired() {
    let mut engine = PolicyEngine::new(vec!["device".to_string()]);

    // Add expired permission
    let expired = Permission {
        module: "device".to_string(),
        actions: vec!["device.control".to_string()],
        scope: vec![],
        granted_at: now_ts() - 7200,
        expires_at: Some(now_ts() - 3600),
    };
    engine.grant_permission(expired);

    // Add valid permission
    let valid = Permission {
        module: "device".to_string(),
        actions: vec!["device.query".to_string()],
        scope: vec![],
        granted_at: now_ts(),
        expires_at: Some(now_ts() + 3600),
    };
    engine.grant_permission(valid);

    let cleared = engine.clear_expired();
    assert_eq!(cleared, 1);

    let perms = engine.get_permissions("device");
    assert_eq!(perms.len(), 1);
    assert_eq!(perms[0].actions[0], "device.query");
}

#[test]
fn test_revoke_module() {
    let mut engine = PolicyEngine::new(vec!["device".to_string()]);

    let permission = Permission {
        module: "device".to_string(),
        actions: vec!["device.control".to_string()],
        scope: vec![],
        granted_at: now_ts(),
        expires_at: None,
    };
    engine.grant_permission(permission);

    assert!(engine.is_action_permitted("device", "device.control"));

    engine.revoke_module("device");

    assert!(!engine.is_action_permitted("device", "device.control"));
}

fn grant(engine: &mut PolicyEngine, module: &str, action: &str, expires_at: Option<i64>) {
    engine.grant_permission(Permission {
        module: module.to_string(),
        actions: vec![action.to_string()],
        scope: vec![],
        granted_at: now_ts(),
        expires_at,
    });
}

#[test]
fn ancestor_grant_covers_subtree() {
    // A grant for "device" authorizes "device.control" and
    // "device.control.dim".
    let mut engine = PolicyEngine::new(vec![]);
    grant(&mut engine, "device", "device", None);
    assert!(engine.is_action_permitted("device", "device"));
    assert!(engine.is_action_permitted("device", "device.control"));
    assert!(engine.is_action_permitted("device", "device.control.dim"));
}

#[test]
fn fine_grant_covers_only_its_subtree() {
    // A grant for "device.control" authorizes itself and its children, but
    // not the bare module.
    let mut engine = PolicyEngine::new(vec![]);
    grant(&mut engine, "device", "device.control", None);
    assert!(engine.is_action_permitted("device", "device.control"));
    assert!(engine.is_action_permitted("device", "device.control.dim"));
    assert!(!engine.is_action_permitted("device", "device"));
}

#[test]
fn prefix_without_dot_never_matches() {
    // "dev" must not cover "device.control", and a grant for "device" must
    // not cover "devicecontrol".
    let mut engine = PolicyEngine::new(vec![]);
    grant(&mut engine, "device", "dev", None);
    assert!(!engine.is_action_permitted("device", "device.control"));

    let mut engine2 = PolicyEngine::new(vec![]);
    grant(&mut engine2, "device", "device", None);
    assert!(!engine2.is_action_permitted("device", "devicecontrol"));
}

#[test]
fn expired_grant_never_authorizes() {
    // Even immediately after being granted with an already-past expiry.
    let mut engine = PolicyEngine::new(vec![]);
    grant(&mut engine, "device", "device", Some(now_ts() - 1));
    assert!(!engine.is_action_permitted("device", "device.control"));
}

#[test]
fn clear_expired_twice_removes_nothing() {
    let mut engine = PolicyEngine::new(vec![]);
    grant(&mut engine, "device", "device.control", Some(now_ts() - 3600));
    grant(&mut engine, "device", "device.query", Some(now_ts() - 10));
    grant(&mut engine, "email", "email.read", Some(now_ts() + 3600));
    grant(&mut engine, "camera", "camera.capture", None);

    let first = engine.clear_expired();
    assert_eq!(first, 2);
    let second = engine.clear_expired();
    assert_eq!(second, 0);
    assert_eq!(engine.get_permissions("email").len(), 1);
    assert_eq!(engine.get_permissions("camera").len(), 1);
    assert_eq!(engine.get_permissions("device").len(), 0);
}

#[test]
fn grant_check_revoke_scenario() {
    // Policy-authorized, then revoked: the same intent flips to a policy
    // violation.
    let mut engine = PolicyEngine::new(vec!["device".to_string()]);
    grant(&mut engine, "device", "device.control", Some(now_ts() + 3600));

    let intent = Intent::new(
        "device.control".to_string(),
        900,
        Vec::new(),
        "Control device".to_string(),
    )
    .with_permission(true)
    .with_target_module("device".to_string());

    assert!(engine.check_intent(&intent).is_ok());

    engine.revoke_module("device");

    match engine.check_intent(&intent).unwrap_err() {
        AgentError::PolicyViolation(msg) => {
            assert_eq!(msg, "No valid permission found for intent type 'device.control'");
        }
        other => panic!("unexpected error: {:?}", other),
    }
}

#[test]
fn missing_target_module_is_a_violation() {
    let engine = PolicyEngine::new(vec![]);
    let intent = intent("device.control").with_permission(true);
    match engine.check_intent(&intent).unwrap_err() {
        AgentError::PolicyViolation(msg) => {
            assert_eq!(msg, "Intent requires permission but has no target module");
        }
        other => panic!("unexpected error: {:?}", other),
    }
}

#[test]
fn module_outside_allow_list_is_a_violation() {
    let mut engine = PolicyEngine::new(vec!["email".to_string()]);
    grant(&mut engine, "device", "device", None);
    let intent = intent("device.control").with_permission(true).with_target_module(
        "device".to_string(),
    );
    match engine.check_intent(&intent).unwrap_err() {
        AgentError::PolicyViolation(msg) => {
            assert_eq!(msg, "Module 'device' is not in allowed modules list");
        }
        other => panic!("unexpected error: {:?}", other),
    }
}

#[test]
fn empty_allow_list_means_no_restriction() {
    let mut engine = PolicyEngine::new(vec![]);
    grant(&mut engine, "device", "device", None);
    let intent = intent("device.control").with_permission(true).with_target_module(
        "device".to_string(),
    );
    assert!(engine.check_intent(&intent).is_ok());
}
