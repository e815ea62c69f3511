//! Cognitive-to-action authorization core of a local personal-assistant agent.
//!
//! The agent never performs actions itself: it emits structured [`Intent`]
//! records, which pass through a confidence gate ([`intent::IntentGenerator`]),
//! an authorization gate ([`policy::PolicyEngine`]) and a situational gate
//! ([`planner::Planner`]) before an external executor may act on them.

pub mod error;
pub mod intent;
pub mod json;
pub mod llm;
pub mod planner;
pub mod policy;
pub mod text;
pub mod types;
pub mod voice;

pub use error::AgentError;
pub use types::Context;
pub use types::Event;
pub use types::Habit;
pub use types::Habit as HabitType;
pub use types::Intent;
