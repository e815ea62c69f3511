//! Core data model of the agent: intents, events, habits and ambient
//! context.
//!
//! Real-valued quantities of the surrounding system are carried here as
//! scaled integers so that every rule over them can be verified exactly:
//! confidence and importance values in `[0, 1]` are stored in thousandths
//! (`0..=1000`), and instants are stored as whole seconds since the Unix
//! epoch.

use crate::text::str_eq;
use vstd::prelude::*;

verus! {

/// Confidence and importance values are stored in thousandths of a unit.
pub const CONFIDENCE_SCALE: u32 = 1000;

/// A structured parameter value attached to an intent or event.
#[derive(Debug, PartialEq, Eq)]
pub enum ParamValue {
    Null,
    Bool(bool),
    Int(i64),
    Str(String),
}

/// Mathematical model of a parameter value.
#[verifier::ext_equal]
pub ghost enum ParamModel {
    Null,
    Bool(bool),
    Int(int),
    Str(Seq<char>),
}

impl View for ParamValue {
    type V = ParamModel;

    open spec fn view(&self) -> ParamModel {
        match self {
            ParamValue::Null => ParamModel::Null,
            ParamValue::Bool(b) => ParamModel::Bool(*b),
            ParamValue::Int(n) => ParamModel::Int(*n as int),
            ParamValue::Str(s) => ParamModel::Str(s@),
        }
    }
}

impl Clone for ParamValue {
    fn clone(&self) -> (r: Self)
        ensures
            r == *self,
    {
        match self {
            ParamValue::Null => ParamValue::Null,
            ParamValue::Bool(b) => ParamValue::Bool(*b),
            ParamValue::Int(n) => ParamValue::Int(*n),
            ParamValue::Str(s) => ParamValue::Str(s.clone()),
        }
    }
}

/// Copies a parameter list entry by entry.
pub fn clone_params(v: &Vec<(String, ParamValue)>) -> (r: Vec<(String, ParamValue)>)
    ensures
        r@ == v@,
{
    let mut out: Vec<(String, ParamValue)> = Vec::new();
    let mut i: usize = 0;
    while i < v.len()
        invariant
            i <= v@.len(),
            out@ == v@.subrange(0, i as int),
        decreases v@.len() - i,
    {
        let (k, val) = (&v[i].0, &v[i].1);
        out.push((k.clone(), val.clone()));
        i = i + 1;
        assert(out@ =~= v@.subrange(0, i as int));
    }
    assert(out@ =~= v@);
    out
}

/// Relies on `uuid::Uuid::new_v4` and its hyphenated rendering: a fresh
/// random identifier; nothing is assumed about its value.
#[verifier::external_body]
pub fn fresh_id() -> String {
    uuid::Uuid::new_v4().to_string()
}

/// Timestamps that a calendar date can stand for: roughly a quarter of a
/// million years either side of the epoch, comfortably inside the range
/// `chrono` can represent as a date.
pub open spec fn renderable_ts(t: int) -> bool {
    -8_000_000_000_000 <= t <= 8_000_000_000_000
}

/// Relies on `chrono::Utc::now`: the current wall-clock instant in whole
/// seconds since the Unix epoch. Nothing is assumed of its value beyond
/// lying in the range a `chrono::DateTime` can represent at all.
#[verifier::external_body]
pub fn now_ts() -> (r: i64)
    ensures
        renderable_ts(r as int),
{
    chrono::Utc::now().timestamp()
}

/// Structured intent emitted by the agent.
///
/// The agent emits intents but never executes actions directly; downstream
/// stages attach authorization decisions externally and the record itself
/// stays immutable.
#[derive(Debug, PartialEq, Eq)]
pub struct Intent {
    pub id: String,
    pub intent_type: String,
    /// Confidence in thousandths: `0..=1000` stands for `[0, 1]`.
    pub confidence: u32,
    /// Parameter mapping; keys are expected to be unique.
    pub parameters: Vec<(String, ParamValue)>,
    pub reasoning: String,
    pub requires_permission: bool,
    pub target_module: Option<String>,
    /// Creation instant, in seconds since the Unix epoch.
    pub created_at: i64,
}

/// Mathematical model of an intent: every field as a plain mathematical
/// value.
#[verifier::ext_equal]
pub ghost struct IntentModel {
    pub id: Seq<char>,
    pub intent_type: Seq<char>,
    pub confidence: int,
    pub parameters: Seq<(Seq<char>, ParamModel)>,
    pub reasoning: Seq<char>,
    pub requires_permission: bool,
    pub target_module: Option<Seq<char>>,
    pub created_at: int,
}

impl View for Intent {
    type V = IntentModel;

    open spec fn view(&self) -> IntentModel {
        IntentModel {
            id: self.id@,
            intent_type: self.intent_type@,
            confidence: self.confidence as int,
            parameters: self.parameters@.map_values(|p: (String, ParamValue)| (p.0@, p.1@)),
            reasoning: self.reasoning@,
            requires_permission: self.requires_permission,
            target_module: match self.target_module {
                Some(m) => Some(m@),
                None => None,
            },
            created_at: self.created_at as int,
        }
    }
}

impl Clone for Intent {
    fn clone(&self) -> (r: Self)
        ensures
            r.id == self.id,
            r.intent_type == self.intent_type,
            r.confidence == self.confidence,
            r.parameters@ == self.parameters@,
            r.reasoning == self.reasoning,
            r.requires_permission == self.requires_permission,
            r.target_module == self.target_module,
            r.created_at == self.created_at,
    {
        Intent {
            id: self.id.clone(),
            intent_type: self.intent_type.clone(),
            confidence: self.confidence,
            parameters: clone_params(&self.parameters),
            reasoning: self.reasoning.clone(),
            requires_permission: self.requires_permission,
            target_module: match &self.target_module {
                Some(m) => Some(m.clone()),
                None => None,
            },
            created_at: self.created_at,
        }
    }
}

impl Intent {
    /// Assembles a candidate intent with a fresh identifier and the current
    /// time; permission and module classification are left to the
    /// generator.
    pub fn new(
        intent_type: String,
        confidence: u32,
        parameters: Vec<(String, ParamValue)>,
        reasoning: String,
    ) -> (r: Self)
        ensures
            r.intent_type == intent_type,
            r.confidence == confidence,
            r.parameters == parameters,
            r.reasoning == reasoning,
            !r.requires_permission,
            r.target_module is None,
    {
        Intent {
            id: fresh_id(),
            intent_type,
            confidence,
            parameters,
            reasoning,
            requires_permission: false,
            target_module: None,
            created_at: now_ts(),
        }
    }

    pub fn with_permission(self, required: bool) -> (r: Self)
        ensures
            r == (Intent { requires_permission: required, ..self }),
    {
        Intent { requires_permission: required, ..self }
    }

    pub fn with_target_module(self, module: String) -> (r: Self)
        ensures
            r == (Intent { target_module: Some(module), ..self }),
    {
        Intent { target_module: Some(module), ..self }
    }
}

/// Event in the user's life or system state.
#[derive(Debug)]
pub struct Event {
    pub id: String,
    pub event_type: String,
    pub description: String,
    /// Importance in thousandths: `0..=1000` stands for `[0, 1]`.
    pub importance: u32,
    pub metadata: Vec<(String, ParamValue)>,
    /// Instant of the event, in seconds since the Unix epoch.
    pub timestamp: i64,
}

/// The parameter list with the binding for `k` replaced by `v`, or with
/// `(k, v)` appended when `k` is not bound yet.
pub open spec fn insert_param(
    ps: Seq<(String, ParamValue)>,
    k: String,
    v: ParamValue,
) -> Seq<(String, ParamValue)>
    decreases ps.len(),
{
    if ps.len() == 0 {
        seq![(k, v)]
    } else if ps[0].0@ == k@ {
        seq![(k, v)] + ps.drop_first()
    } else {
        seq![ps[0]] + insert_param(ps.drop_first(), k, v)
    }
}

impl Clone for Event {
    fn clone(&self) -> (r: Self)
        ensures
            r.id == self.id,
            r.event_type == self.event_type,
            r.description == self.description,
            r.importance == self.importance,
            r.metadata@ == self.metadata@,
            r.timestamp == self.timestamp,
    {
        Event {
            id: self.id.clone(),
            event_type: self.event_type.clone(),
            description: self.description.clone(),
            importance: self.importance,
            metadata: clone_params(&self.metadata),
            timestamp: self.timestamp,
        }
    }
}

impl Event {
    pub fn new(event_type: String, description: String, importance: u32) -> (r: Self)
        ensures
            r.event_type == event_type,
            r.description == description,
            r.importance == importance,
            r.metadata@ == Seq::<(String, ParamValue)>::empty(),
            renderable_ts(r.timestamp as int),
    {
        Event {
            id: fresh_id(),
            event_type,
            description,
            importance,
            metadata: Vec::new(),
            timestamp: now_ts(),
        }
    }

    /// Binds `key` to `value` in the metadata, replacing an existing
    /// binding for the same key.
    pub fn with_metadata(self, key: String, value: ParamValue) -> (r: Self)
        ensures
            r.metadata@ == insert_param(self.metadata@, key, value),
            r.id == self.id,
            r.event_type == self.event_type,
            r.description == self.description,
            r.importance == self.importance,
            r.timestamp == self.timestamp,
    {
        let mut out: Vec<(String, ParamValue)> = Vec::new();
        let mut i: usize = 0;
        let n = self.metadata.len();
        while i < n
            invariant
                n == self.metadata@.len(),
                i <= n,
                forall|j: int| 0 <= j < i ==> #[trigger] self.metadata@[j].0@ != key@,
                out@ == self.metadata@.subrange(0, i as int),
            decreases n - i,
        {
            if str_eq(self.metadata[i].0.as_str(), key.as_str()) {
                out.push((key, value));
                let mut rest = clone_tail(&self.metadata, i + 1);
                out.append(&mut rest);
                proof {
                    lemma_insert_param_found(self.metadata@, key, value, i as int);
                    assert(out@ =~= self.metadata@.subrange(0, i as int) + seq![(key, value)]
                        + self.metadata@.skip(i + 1));
                }
                return Event { metadata: out, ..self };
            }
            out.push((self.metadata[i].0.clone(), self.metadata[i].1.clone()));
            i = i + 1;
            assert(out@ =~= self.metadata@.subrange(0, i as int));
        }
        out.push((key, value));
        proof {
            lemma_insert_param_missing(self.metadata@, key, value);
            assert(out@ =~= self.metadata@ + seq![(key, value)]);
        }
        Event { metadata: out, ..self }
    }
}

/// Copies the entries of `v` from position `from` on.
fn clone_tail(v: &Vec<(String, ParamValue)>, from: usize) -> (r: Vec<(String, ParamValue)>)
    requires
        from <= v@.len(),
    ensures
        r@ == v@.skip(from as int),
{
    let mut out: Vec<(String, ParamValue)> = Vec::new();
    let mut i: usize = from;
    while i < v.len()
        invariant
            from <= i <= v@.len(),
            out@ == v@.subrange(from as int, i as int),
        decreases v@.len() - i,
    {
        let (k, val) = (&v[i].0, &v[i].1);
        out.push((k.clone(), val.clone()));
        i = i + 1;
        assert(out@ =~= v@.subrange(from as int, i as int));
    }
    assert(out@ =~= v@.skip(from as int));
    out
}

proof fn lemma_insert_param_found(ps: Seq<(String, ParamValue)>, k: String, v: ParamValue, i: int)
    requires
        0 <= i < ps.len(),
        forall|j: int| 0 <= j < i ==> #[trigger] ps[j].0@ != k@,
        ps[i].0@ == k@,
    ensures
        insert_param(ps, k, v) == ps.subrange(0, i) + seq![(k, v)] + ps.skip(i + 1),
    decreases i,
{
    if i == 0 {
        assert(insert_param(ps, k, v) =~= ps.subrange(0, 0) + seq![(k, v)] + ps.skip(1));
    } else {
        lemma_insert_param_found(ps.drop_first(), k, v, i - 1);
        assert(ps.drop_first().subrange(0, i - 1) =~= ps.subrange(1, i));
        assert(ps.drop_first().skip(i) =~= ps.skip(i + 1));
        assert(seq![ps[0]] + (ps.subrange(1, i) + seq![(k, v)] + ps.skip(i + 1)) =~= ps.subrange(
            0,
            i,
        ) + seq![(k, v)] + ps.skip(i + 1));
    }
}

proof fn lemma_insert_param_missing(ps: Seq<(String, ParamValue)>, k: String, v: ParamValue)
    requires
        forall|j: int| 0 <= j < ps.len() ==> #[trigger] ps[j].0@ != k@,
    ensures
        insert_param(ps, k, v) == ps + seq![(k, v)],
    decreases ps.len(),
{
    if ps.len() == 0 {
        assert(insert_param(ps, k, v) =~= ps + seq![(k, v)]);
    } else {
        lemma_insert_param_missing(ps.drop_first(), k, v);
        assert(seq![ps[0]] + (ps.drop_first() + seq![(k, v)]) =~= ps + seq![(k, v)]);
    }
}

/// How often a habit recurs.
#[derive(Debug)]
pub enum HabitFrequency {
    Daily,
    Weekly,
    Monthly,
    Custom(String),
}

impl Clone for HabitFrequency {
    fn clone(&self) -> (r: Self)
        ensures
            r == *self,
    {
        match self {
            HabitFrequency::Daily => HabitFrequency::Daily,
            HabitFrequency::Weekly => HabitFrequency::Weekly,
            HabitFrequency::Monthly => HabitFrequency::Monthly,
            HabitFrequency::Custom(s) => HabitFrequency::Custom(s.clone()),
        }
    }
}

/// Mathematical model of a habit frequency.
#[verifier::ext_equal]
pub ghost enum FreqModel {
    Daily,
    Weekly,
    Monthly,
    Custom(Seq<char>),
}

impl View for HabitFrequency {
    type V = FreqModel;

    open spec fn view(&self) -> FreqModel {
        match self {
            HabitFrequency::Daily => FreqModel::Daily,
            HabitFrequency::Weekly => FreqModel::Weekly,
            HabitFrequency::Monthly => FreqModel::Monthly,
            HabitFrequency::Custom(s) => FreqModel::Custom(s@),
        }
    }
}

/// The storage code of a habit frequency.
pub open spec fn freq_code(f: FreqModel) -> Seq<char> {
    match f {
        FreqModel::Daily => "daily"@,
        FreqModel::Weekly => "weekly"@,
        FreqModel::Monthly => "monthly"@,
        FreqModel::Custom(s) => "custom:"@ + s,
    }
}

/// The frequency a storage code stands for: the three fixed codes, a
/// `custom:` code for a custom schedule, and any other string kept as a
/// custom schedule verbatim.
pub open spec fn freq_decode(s: Seq<char>) -> FreqModel {
    if s == "daily"@ {
        FreqModel::Daily
    } else if s == "weekly"@ {
        FreqModel::Weekly
    } else if s == "monthly"@ {
        FreqModel::Monthly
    } else if "custom:"@.is_prefix_of(s) {
        FreqModel::Custom(s.skip("custom:"@.len() as int))
    } else {
        FreqModel::Custom(s)
    }
}

/// Encodes a habit frequency for storage.
pub fn frequency_code(f: &HabitFrequency) -> (r: String)
    ensures
        r@ == freq_code(f@),
{
    match f {
        HabitFrequency::Daily => String::from_str("daily"),
        HabitFrequency::Weekly => String::from_str("weekly"),
        HabitFrequency::Monthly => String::from_str("monthly"),
        HabitFrequency::Custom(s) => {
            let mut out = String::from_str("custom:");
            out.append(s.as_str());
            proof {
                assert(out@ =~= "custom:"@ + s@);
            }
            out
        },
    }
}

/// Decodes a stored frequency code.
pub fn frequency_from_code(s: &str) -> (r: HabitFrequency)
    ensures
        r@ == freq_decode(s@),
{
    if str_eq(s, "daily") {
        HabitFrequency::Daily
    } else if str_eq(s, "weekly") {
        HabitFrequency::Weekly
    } else if str_eq(s, "monthly") {
        HabitFrequency::Monthly
    } else if crate::text::starts_with_str(s, "custom:") {
        let plen = "custom:".unicode_len();
        let n = s.unicode_len();
        let rest = s.substring_char(plen, n);
        HabitFrequency::Custom(String::from_str(rest))
    } else {
        HabitFrequency::Custom(String::from_str(s))
    }
}

/// The frequency codes are lossless: decoding the code of any frequency
/// yields that frequency back.
pub proof fn lemma_freq_code_round_trip(f: FreqModel)
    ensures
        freq_decode(freq_code(f)) == f,
{
    reveal_strlit("daily");
    reveal_strlit("weekly");
    reveal_strlit("monthly");
    reveal_strlit("custom:");
    match f {
        FreqModel::Daily => {
            assert(!"custom:"@.is_prefix_of("daily"@));
        },
        FreqModel::Weekly => {
            assert("weekly"@ != "daily"@) by {
                assert("weekly"@[0] != "daily"@[0]);
            }
            assert(!"custom:"@.is_prefix_of("weekly"@));
        },
        FreqModel::Monthly => {
            assert("monthly"@ != "daily"@) by {
                assert("monthly"@[0] != "daily"@[0]);
            }
            assert("monthly"@ != "weekly"@) by {
                assert("monthly"@[0] != "weekly"@[0]);
            }
            assert(!"custom:"@.is_prefix_of("monthly"@)) by {
                assert("custom:"@[0] == 'c' && "monthly"@[0] == 'm');
                if "custom:"@.is_prefix_of("monthly"@) {
                    assert("monthly"@.subrange(0, 7)[0] == "monthly"@[0]);
                }
            }
        },
        FreqModel::Custom(s) => {
            let c = "custom:"@ + s;
            assert(c[0] == 'c');
            assert(c != "daily"@) by {
                assert(c[0] != "daily"@[0]);
            }
            assert(c != "weekly"@) by {
                assert(c[0] != "weekly"@[0]);
            }
            assert(c != "monthly"@) by {
                assert(c[0] != "monthly"@[0]);
            }
            assert("custom:"@.is_prefix_of(c)) by {
                assert(c.subrange(0, 7) =~= "custom:"@);
            }
            assert(c.skip("custom:"@.len() as int) =~= s);
        },
    }
}

/// User habit or routine.
#[derive(Debug)]
pub struct Habit {
    pub id: String,
    pub name: String,
    pub description: String,
    pub frequency: HabitFrequency,
    pub schedule: Option<String>,
    pub completion_count: u32,
    /// Instant of the latest completion, in seconds since the Unix epoch.
    pub last_completed: Option<i64>,
    /// Creation instant, in seconds since the Unix epoch.
    pub created_at: i64,
    /// Statistical variance in completion timing, in hundredths of a
    /// squared hour, when known.
    pub variance: Option<u32>,
}

impl Clone for Habit {
    fn clone(&self) -> (r: Self)
        ensures
            r == *self,
    {
        Habit {
            id: self.id.clone(),
            name: self.name.clone(),
            description: self.description.clone(),
            frequency: self.frequency.clone(),
            schedule: match &self.schedule {
                Some(s) => Some(s.clone()),
                None => None,
            },
            completion_count: self.completion_count,
            last_completed: self.last_completed,
            created_at: self.created_at,
            variance: self.variance,
        }
    }
}

impl Habit {
    pub fn new(name: String, description: String, frequency: HabitFrequency) -> (r: Self)
        ensures
            r.name == name,
            r.description == description,
            r.frequency == frequency,
            r.schedule is None,
            r.completion_count == 0,
            r.last_completed is None,
            r.variance is None,
            renderable_ts(r.created_at as int),
    {
        Habit {
            id: fresh_id(),
            name,
            description,
            frequency,
            schedule: None,
            completion_count: 0,
            last_completed: None,
            created_at: now_ts(),
            variance: None,
        }
    }

    /// Records one completion at the current time.
    pub fn complete(&mut self)
        requires
            old(self).completion_count < u32::MAX,
        ensures
            final(self).completion_count == old(self).completion_count + 1,
            final(self).last_completed is Some,
            renderable_ts(final(self).last_completed->0 as int),
            final(self).id == old(self).id,
            final(self).name == old(self).name,
            final(self).description == old(self).description,
            final(self).frequency == old(self).frequency,
            final(self).schedule == old(self).schedule,
            final(self).created_at == old(self).created_at,
            final(self).variance == old(self).variance,
    {
        self.completion_count = self.completion_count + 1;
        self.last_completed = Some(now_ts());
    }
}

/// User context at a point in time; read-only input to the situational
/// gate.
#[derive(Debug, Clone)]
pub struct Context {
    pub user_id: String,
    pub current_location: Option<String>,
    pub current_activity: Option<String>,
    pub recent_events: Vec<Event>,
    pub active_habits: Vec<Habit>,
    /// Instant of this snapshot, in seconds since the Unix epoch.
    pub timestamp: i64,
}

impl Context {
    pub fn new(user_id: String) -> (r: Self)
        ensures
            r.user_id == user_id,
            r.current_location is None,
            r.current_activity is None,
            r.recent_events@ == Seq::<Event>::empty(),
            r.active_habits@ == Seq::<Habit>::empty(),
            renderable_ts(r.timestamp as int),
    {
        Context {
            user_id,
            current_location: None,
            current_activity: None,
            recent_events: Vec::new(),
            active_habits: Vec::new(),
            timestamp: now_ts(),
        }
    }
}

/// Voice transcription result.
#[derive(Debug, Clone)]
pub struct VoiceTranscription {
    pub text: String,
    /// Confidence in thousandths: `0..=1000` stands for `[0, 1]`.
    pub confidence: u32,
    pub language: String,
    pub duration_ms: u32,
}

/// Language-model completion options.
///
/// Sampling parameters that the surrounding system treats as reals in
/// `[0, 2]` are carried in thousandths.
#[derive(Debug, Clone)]
pub struct LlmOptions {
    /// Sampling temperature in thousandths.
    pub temperature: u32,
    pub max_tokens: u32,
    /// Nucleus-sampling bound in thousandths.
    pub top_p: u32,
    /// Frequency penalty in thousandths.
    pub frequency_penalty: u32,
    /// Presence penalty in thousandths.
    pub presence_penalty: u32,
}

impl Default for LlmOptions {
    fn default() -> (r: Self)
        ensures
            r.temperature == 700,
            r.max_tokens == 500,
            r.top_p == 1000,
            r.frequency_penalty == 0,
            r.presence_penalty == 0,
    {
        LlmOptions {
            temperature: 700,
            max_tokens: 500,
            top_p: 1000,
            frequency_penalty: 0,
            presence_penalty: 0,
        }
    }
}

/// Language-model completion response.
#[derive(Debug, Clone)]
pub struct LlmResponse {
    pub text: String,
    pub finish_reason: String,
    pub usage: LlmUsage,
}

#[derive(Debug, Clone, Copy, PartialEq, Eq, Structural)]
pub struct LlmUsage {
    pub prompt_tokens: u32,
    pub completion_tokens: u32,
    pub total_tokens: u32,
}

} // verus!
