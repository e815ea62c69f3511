//! Intent generation: converts reasoning into structured intents.
//!
//! The agent emits structured intents but never executes actions; this is
//! the security boundary between thinking and acting. Generation applies a
//! confidence floor, classifies whether the intent type needs a permission,
//! and extracts the target module from the dot-separated namespace.

use crate::error::AgentError;
use crate::text::dec_digits;
use crate::text::has_sub;
use crate::text::lower_of;
use crate::text::lowercase;
use crate::text::u64_string;
use crate::types::Intent;
use crate::types::ParamValue;
use vstd::prelude::*;

verus! {

/// Stable content of an intent: every field the generator computes, with
/// the fresh identifier and creation instant left out.
#[verifier::ext_equal]
pub ghost struct IntentSketch {
    pub intent_type: Seq<char>,
    pub confidence: int,
    pub parameters: Seq<(Seq<char>, crate::types::ParamModel)>,
    pub reasoning: Seq<char>,
    pub requires_permission: bool,
    pub target_module: Option<Seq<char>>,
}

/// The stable content of `m`.
pub open spec fn sketch_of(m: crate::types::IntentModel) -> IntentSketch {
    IntentSketch {
        intent_type: m.intent_type,
        confidence: m.confidence,
        parameters: m.parameters,
        reasoning: m.reasoning,
        requires_permission: m.requires_permission,
        target_module: m.target_module,
    }
}

/// The fixed closed set of sensitive namespace prefixes: an intent type
/// starting with one of them requires a permission.
pub open spec fn sensitive_prefix(t: Seq<char>) -> bool {
    ||| "device."@.is_prefix_of(t)
    ||| "message."@.is_prefix_of(t)
    ||| "email."@.is_prefix_of(t)
    ||| "calendar."@.is_prefix_of(t)
    ||| "file."@.is_prefix_of(t)
    ||| "network."@.is_prefix_of(t)
    ||| "location."@.is_prefix_of(t)
    ||| "camera."@.is_prefix_of(t)
    ||| "microphone."@.is_prefix_of(t)
    ||| "notification."@.is_prefix_of(t)
}

/// Position of the first `.` in `t`, or `t.len()` when there is none.
pub open spec fn first_dot(t: Seq<char>) -> int
    decreases t.len(),
{
    if t.len() == 0 {
        0
    } else if t[0] == '.' {
        0
    } else {
        1 + first_dot(t.drop_first())
    }
}

/// The namespace segment before the first `.`, or `None` when the type
/// holds no `.` at all.
pub open spec fn module_of(t: Seq<char>) -> Option<Seq<char>> {
    if first_dot(t) < t.len() {
        Some(t.subrange(0, first_dot(t)))
    } else {
        None
    }
}

/// Intent generator: turns raw signals into validated [`Intent`] values.
#[derive(Debug)]
pub struct IntentGenerator {
    /// Minimum confidence, in thousandths, below which generation fails.
    pub min_confidence: u32,
}

/// Position of the first `.` in `s`.
fn find_dot(s: &str) -> (r: usize)
    ensures
        r == first_dot(s@),
        r <= s@.len(),
{
    let n = s.unicode_len();
    let mut i: usize = 0;
    proof {
        assert(s@.skip(0) =~= s@);
    }
    while i < n
        invariant
            n == s@.len(),
            i <= n,
            first_dot(s@) == i + first_dot(s@.skip(i as int)),
        decreases n - i,
    {
        proof {
            assert(s@.skip(i as int)[0] == s@[i as int]);
            assert(s@.skip(i as int).drop_first() =~= s@.skip(i + 1));
        }
        if s.get_char(i) == '.' {
            return i;
        }
        i = i + 1;
    }
    proof {
        assert(s@.skip(n as int) =~= Seq::<char>::empty());
    }
    n
}

impl IntentGenerator {
    /// A generator with the default confidence floor of one half.
    pub fn new() -> (r: Self)
        ensures
            r.min_confidence == 500,
    {
        IntentGenerator { min_confidence: 500 }
    }

    /// Classifies whether an intent type requires a permission: exactly
    /// the types under one of the sensitive namespace prefixes.
    pub fn requires_permission(&self, intent_type: &str) -> (r: bool)
        ensures
            r == sensitive_prefix(intent_type@),
    {
        crate::text::starts_with_str(intent_type, "device.")
            || crate::text::starts_with_str(intent_type, "message.")
            || crate::text::starts_with_str(intent_type, "email.")
            || crate::text::starts_with_str(intent_type, "calendar.")
            || crate::text::starts_with_str(intent_type, "file.")
            || crate::text::starts_with_str(intent_type, "network.")
            || crate::text::starts_with_str(intent_type, "location.")
            || crate::text::starts_with_str(intent_type, "camera.")
            || crate::text::starts_with_str(intent_type, "microphone.")
            || crate::text::starts_with_str(intent_type, "notification.")
    }

    /// Generates an intent from parsed understanding. Fails exactly when
    /// the confidence lies below the generator's floor; on success the
    /// intent carries the given fields, its permission classification and
    /// its target module.
    pub fn generate(
        &self,
        intent_type: String,
        confidence: u32,
        parameters: Vec<(String, ParamValue)>,
        reasoning: String,
    ) -> (r: Result<Intent, AgentError>)
        ensures
            r is Ok <==> confidence >= self.min_confidence,
            r is Ok ==> ({
                let i = r->Ok_0;
                &&& i.intent_type == intent_type
                &&& i.confidence == confidence
                &&& i.parameters == parameters
                &&& i.reasoning == reasoning
                &&& i.requires_permission == sensitive_prefix(intent_type@)
                &&& match module_of(intent_type@) {
                    Some(m) => i.target_module is Some && i.target_module->0@ == m,
                    None => i.target_module is None,
                }
            }),
            r is Err ==> r->Err_0 is InvalidIntent,
            r is Err ==> r->Err_0->InvalidIntent_0@ == "Confidence "@ + dec_digits(
                confidence as nat,
            ) + " below minimum "@ + dec_digits(self.min_confidence as nat),
    {
        if confidence < self.min_confidence {
            let mut msg = String::from_str("Confidence ");
            msg.append(u64_string(confidence as u64).as_str());
            msg.append(" below minimum ");
            msg.append(u64_string(self.min_confidence as u64).as_str());
            proof {
                assert(msg@ =~= "Confidence "@ + dec_digits(confidence as nat)
                    + " below minimum "@ + dec_digits(self.min_confidence as nat));
            }
            return Err(AgentError::InvalidIntent(msg));
        }

        let required = self.requires_permission(intent_type.as_str());
        let dot = find_dot(intent_type.as_str());
        let type_len = intent_type.as_str().unicode_len();
        let target: Option<String> = if dot < type_len {
            Some(String::from_str(intent_type.as_str().substring_char(0, dot)))
        } else {
            None
        };

        let mut intent = Intent::new(intent_type, confidence, parameters, reasoning);
        intent.requires_permission = required;
        intent.target_module = target;
        Ok(intent)
    }

    /// Serializes an intent to its stable JSON rendering, for
    /// transmission to device agents. Serialization cannot fail; the
    /// `Result` shape is kept for callers that treat it as fallible.
    pub fn to_json(&self, intent: &Intent) -> (r: Result<String, AgentError>)
        ensures
            r is Ok,
            r->Ok_0@ == crate::json::render_intent(intent@),
    {
        Ok(crate::json::render_intent_string(intent))
    }

    /// Validates an intent that may have arrived from outside the
    /// generator. Succeeds exactly when the confidence is at most one, the
    /// intent type is non-empty and the reasoning is non-empty.
    pub fn validate(&self, intent: &Intent) -> (r: Result<(), AgentError>)
        ensures
            r is Ok <==> (intent.confidence <= crate::types::CONFIDENCE_SCALE
                && intent.intent_type@.len() > 0 && intent.reasoning@.len() > 0),
            r is Err ==> r->Err_0 is InvalidIntent,
            r is Err ==> r->Err_0->InvalidIntent_0@ == ({
                if intent.confidence > crate::types::CONFIDENCE_SCALE {
                    "Confidence must be between 0.0 and 1.0"@
                } else if intent.intent_type@.len() == 0 {
                    "Intent type cannot be empty"@
                } else {
                    "Reasoning cannot be empty"@
                }
            }),
    {
        if intent.confidence > crate::types::CONFIDENCE_SCALE {
            return Err(
                AgentError::InvalidIntent(String::from_str("Confidence must be between 0.0 and 1.0")),
            );
        }
        if intent.intent_type.as_str().unicode_len() == 0 {
            return Err(AgentError::InvalidIntent(String::from_str("Intent type cannot be empty")));
        }
        if intent.reasoning.as_str().unicode_len() == 0 {
            return Err(AgentError::InvalidIntent(String::from_str("Reasoning cannot be empty")));
        }
        Ok(())
    }
}

impl Default for IntentGenerator {
    fn default() -> (r: Self)
        ensures
            r.min_confidence == 500,
    {
        IntentGenerator::new()
    }
}

// --- the keyword-trigger parsing strategy --------------------------------

/// Sketch of the reminder intent produced for a text that asks for a
/// reminder.
pub open spec fn reminder_sketch(text: Seq<char>) -> IntentSketch {
    IntentSketch {
        intent_type: "reminder.create"@,
        confidence: 800,
        parameters: seq![("text"@, crate::types::ParamModel::Str(text))],
        reasoning: "User requested a reminder"@,
        requires_permission: sensitive_prefix("reminder.create"@),
        target_module: module_of("reminder.create"@),
    }
}

/// Sketch of the device intent produced for a text that asks to turn
/// something on (`on` is true) or off.
pub open spec fn device_sketch(on: bool) -> IntentSketch {
    IntentSketch {
        intent_type: "device.control"@,
        confidence: 700,
        parameters: seq![
            ("action"@, crate::types::ParamModel::Str(if on { "on"@ } else { "off"@ })),
        ],
        reasoning: if on {
            "User wants to turn on a device"@
        } else {
            "User wants to turn off a device"@
        },
        requires_permission: sensitive_prefix("device.control"@),
        target_module: module_of("device.control"@),
    }
}

/// Sketch of the weather-query intent.
pub open spec fn weather_sketch() -> IntentSketch {
    IntentSketch {
        intent_type: "weather.query"@,
        confidence: 900,
        parameters: Seq::empty(),
        reasoning: "User asking about weather"@,
        requires_permission: sensitive_prefix("weather.query"@),
        target_module: module_of("weather.query"@),
    }
}

/// Sketch of the time-query intent.
pub open spec fn time_sketch() -> IntentSketch {
    IntentSketch {
        intent_type: "time.query"@,
        confidence: 950,
        parameters: Seq::empty(),
        reasoning: "User asking about current time"@,
        requires_permission: sensitive_prefix("time.query"@),
        target_module: module_of("time.query"@),
    }
}

/// The intents that the keyword triggers yield for `text`, whose
/// case-folded copy is `low`, under confidence floor `min`: one intent per
/// independent trigger that fires, in a fixed order, each included only
/// when its fixed confidence reaches the floor.
pub open spec fn expected_parse(text: Seq<char>, low: Seq<char>, min: int) -> Seq<IntentSketch> {
    (if (has_sub(low, "remind me to"@) || has_sub(low, "reminder"@)) && 800 >= min {
        seq![reminder_sketch(text)]
    } else {
        Seq::empty()
    }) + (if (has_sub(low, "turn on"@) || has_sub(low, "turn off"@)) && 700 >= min {
        seq![device_sketch(has_sub(low, "turn on"@))]
    } else {
        Seq::empty()
    }) + (if has_sub(low, "weather"@) && 900 >= min {
        seq![weather_sketch()]
    } else {
        Seq::empty()
    }) + (if (has_sub(low, "what time"@) || has_sub(low, "current time"@)) && 950 >= min {
        seq![time_sketch()]
    } else {
        Seq::empty()
    })
}

impl IntentGenerator {
    /// Applies the ordered, independent keyword triggers (reminder, device
    /// on/off, weather, time) to a case-folded copy of the text; each
    /// trigger that fires contributes one generated intent with a fixed
    /// confidence and a canned reasoning string.
    pub fn parse_from_text(&self, text: &str) -> (r: Vec<Intent>)
        ensures
            r@.map_values(|i: Intent| sketch_of(i@)) == expected_parse(
                text@,
                lower_of(text@),
                self.min_confidence as int,
            ),
    {
        let mut intents: Vec<Intent> = Vec::new();
        let low = lowercase(text);
        let lows = low.as_str();

        if crate::text::contains_str(lows, "remind me to") || crate::text::contains_str(
            lows,
            "reminder",
        ) {
            let mut params: Vec<(String, ParamValue)> = Vec::new();
            params.push((String::from_str("text"), ParamValue::Str(String::from_str(text))));
            let made = self.generate(
                String::from_str("reminder.create"),
                800,
                params,
                String::from_str("User requested a reminder"),
            );
            if let Ok(intent) = made {
                proof {
                    assert(intent@.parameters.len() == 1);
                    assert(intent@.parameters[0] == ("text"@, crate::types::ParamModel::Str(text@)));
                    assert(sketch_of(intent@) =~~= reminder_sketch(text@));
                }
                intents.push(intent);
            }
        }
        let ghost part1 = intents@.map_values(|i: Intent| sketch_of(i@));
        proof {
            assert(part1 =~= if (has_sub(lower_of(text@), "remind me to"@) || has_sub(
                lower_of(text@),
                "reminder"@,
            )) && 800 >= self.min_confidence as int {
                seq![reminder_sketch(text@)]
            } else {
                Seq::<IntentSketch>::empty()
            });
        }

        if crate::text::contains_str(lows, "turn on") || crate::text::contains_str(
            lows,
            "turn off",
        ) {
            let on = crate::text::contains_str(lows, "turn on");
            let mut params: Vec<(String, ParamValue)> = Vec::new();
            params.push(
                (
                    String::from_str("action"),
                    ParamValue::Str(
                        if on {
                            String::from_str("on")
                        } else {
                            String::from_str("off")
                        },
                    ),
                ),
            );
            let reason = if on {
                String::from_str("User wants to turn on a device")
            } else {
                String::from_str("User wants to turn off a device")
            };
            let made = self.generate(String::from_str("device.control"), 700, params, reason);
            if let Ok(intent) = made {
                proof {
                    assert(intent@.parameters.len() == 1);
                    assert(intent@.parameters[0] == ("action"@, crate::types::ParamModel::Str(
                        if on { "on"@ } else { "off"@ },
                    )));
                    assert(sketch_of(intent@) =~~= device_sketch(on));
                }
                intents.push(intent);
            }
        }
        let ghost part2 = intents@.map_values(|i: Intent| sketch_of(i@));
        proof {
            assert(part2 =~= part1 + (if (has_sub(lower_of(text@), "turn on"@) || has_sub(
                lower_of(text@),
                "turn off"@,
            )) && 700 >= self.min_confidence as int {
                seq![device_sketch(has_sub(lower_of(text@), "turn on"@))]
            } else {
                Seq::<IntentSketch>::empty()
            }));
        }

        if crate::text::contains_str(lows, "weather") {
            let made = self.generate(
                String::from_str("weather.query"),
                900,
                Vec::new(),
                String::from_str("User asking about weather"),
            );
            if let Ok(intent) = made {
                proof {
                    assert(intent@.parameters.len() == 0);
                    assert(sketch_of(intent@) =~~= weather_sketch());
                }
                intents.push(intent);
            }
        }
        let ghost part3 = intents@.map_values(|i: Intent| sketch_of(i@));
        proof {
            assert(part3 =~= part2 + (if has_sub(lower_of(text@), "weather"@) && 900
                >= self.min_confidence as int {
                seq![weather_sketch()]
            } else {
                Seq::<IntentSketch>::empty()
            }));
        }

        if crate::text::contains_str(lows, "what time") || crate::text::contains_str(
            lows,
            "current time",
        ) {
            let made = self.generate(
                String::from_str("time.query"),
                950,
                Vec::new(),
                String::from_str("User asking about current time"),
            );
            if let Ok(intent) = made {
                proof {
                    assert(intent@.parameters.len() == 0);
                    assert(sketch_of(intent@) =~~= time_sketch());
                }
                intents.push(intent);
            }
        }
        proof {
            assert(intents@.map_values(|i: Intent| sketch_of(i@)) =~= part3 + (if (has_sub(
                lower_of(text@),
                "what time"@,
            ) || has_sub(lower_of(text@), "current time"@)) && 950
                >= self.min_confidence as int {
                seq![time_sketch()]
            } else {
                Seq::<IntentSketch>::empty()
            }));
            assert(intents@.map_values(|i: Intent| sketch_of(i@)) =~= expected_parse(
                text@,
                lower_of(text@),
                self.min_confidence as int,
            ));
        }
        intents
    }
}

} // verus!
