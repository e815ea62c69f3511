//! Planner: reasoning and planning over context and habits.
//!
//! Prepares and suggests, never executes. Its evaluation step is the final
//! situational gate: it can veto an otherwise policy-authorized intent
//! based on ambient state, independently of the policy engine.

use crate::text::dec_digits;
use crate::text::str_eq;
use crate::text::u64_string;
use crate::types::Context;
use crate::types::Event;
use crate::types::Habit;
use crate::types::HabitFrequency;
use crate::types::renderable_ts;
use crate::types::Intent;
use vstd::prelude::*;

verus! {

/// The `YYYY-MM-DD HH:MM` rendering of the instant `t` seconds after the
/// Unix epoch, in UTC.
pub uninterp spec fn ts_minutes_of(t: int) -> Seq<char>;

/// Relies on `chrono::DateTime::from_timestamp` and `format` with
/// `"%Y-%m-%d %H:%M"`: a UTC calendar rendering that depends on the
/// timestamp alone. `from_timestamp` returns a date for every timestamp in
/// [`renderable_ts`].
#[verifier::external_body]
pub fn ts_minutes(t: i64) -> (r: String)
    requires
        renderable_ts(t as int),
    ensures
        r@ == ts_minutes_of(t as int),
{
    chrono::DateTime::from_timestamp(t, 0).unwrap().format("%Y-%m-%d %H:%M").to_string()
}

/// The full default rendering of the instant `t` seconds after the Unix
/// epoch, in UTC (`YYYY-MM-DD HH:MM:SS UTC`).
pub uninterp spec fn ts_full_of(t: int) -> Seq<char>;

/// Relies on `chrono::DateTime::from_timestamp` and the `Display`
/// rendering of `DateTime<Utc>`: a UTC rendering that depends on the
/// timestamp alone. `from_timestamp` returns a date for every timestamp in
/// [`renderable_ts`].
#[verifier::external_body]
pub fn ts_full(t: i64) -> (r: String)
    requires
        renderable_ts(t as int),
    ensures
        r@ == ts_full_of(t as int),
{
    chrono::DateTime::from_timestamp(t, 0).unwrap().to_string()
}

/// Planner for reasoning about actions and suggestions.
#[derive(Debug)]
pub struct Planner {
    /// How many recent events a context summary shows at most.
    pub max_context_events: usize,
}

/// The situational veto: the user appears to be asleep and the intent
/// would drive a device.
pub open spec fn sleeping_veto(i: Intent, c: Context) -> bool {
    c.current_activity is Some && c.current_activity->0@ == "sleeping"@
        && "device."@.is_prefix_of(i.intent_type@)
}

/// The situational gate approves `i` in context `c`: no sleeping veto, and
/// the confidence reaches one half.
pub open spec fn gate_approves(i: Intent, c: Context) -> bool {
    !sleeping_veto(i, c) && i.confidence >= 500
}

/// The explanation that accompanies the decision.
pub open spec fn gate_reason(i: Intent, c: Context) -> Seq<char> {
    if sleeping_veto(i, c) {
        "User appears to be sleeping, device control may not be appropriate"@
    } else if i.confidence < 500 {
        "Low confidence: "@ + dec_digits(i.confidence as nat)
    } else {
        "Intent appears appropriate for current context"@
    }
}

impl Planner {
    /// A planner that summarizes at most ten recent events.
    pub fn new() -> (r: Self)
        ensures
            r.max_context_events == 10,
    {
        Planner { max_context_events: 10 }
    }

    /// The final situational gate: whether the intent makes sense in the
    /// current context, with the reason. Runs after, and independently of,
    /// the policy engine; the rules fire in order and the first match
    /// wins.
    pub fn evaluate_intent(&self, intent: &Intent, context: &Context) -> (r: (bool, String))
        ensures
            r.0 == gate_approves(*intent, *context),
            r.1@ == gate_reason(*intent, *context),
    {
        if let Some(activity) = &context.current_activity {
            if str_eq(activity.as_str(), "sleeping") && crate::text::starts_with_str(
                intent.intent_type.as_str(),
                "device.",
            ) {
                return (
                    false,
                    String::from_str(
                        "User appears to be sleeping, device control may not be appropriate",
                    ),
                );
            }
        }
        if intent.confidence < 500 {
            let mut msg = String::from_str("Low confidence: ");
            msg.append(u64_string(intent.confidence as u64).as_str());
            return (false, msg);
        }
        (true, String::from_str("Intent appears appropriate for current context"))
    }
}

// --- context summaries ----------------------------------------------------

/// The summary line of one event.
pub open spec fn event_line(e: Event) -> Seq<char> {
    "  - "@ + e.event_type@ + " ("@ + ts_minutes_of(e.timestamp as int) + "): "@ + e.description@
        + "\n"@
}

/// Lines for the newest `shown` events, newest first: line `j` describes
/// the event `j` places from the end.
pub open spec fn event_lines(evs: Seq<Event>, j: int, shown: int) -> Seq<char>
    decreases shown - j,
{
    if j < 0 || j >= shown || shown > evs.len() {
        Seq::empty()
    } else {
        event_line(evs[evs.len() - 1 - j]) + event_lines(evs, j + 1, shown)
    }
}

/// The debug-style label of a habit frequency.
pub open spec fn freq_label(f: HabitFrequency) -> Seq<char> {
    match f {
        HabitFrequency::Daily => "Daily"@,
        HabitFrequency::Weekly => "Weekly"@,
        HabitFrequency::Monthly => "Monthly"@,
        HabitFrequency::Custom(s) => "Custom(\""@ + s@ + "\")"@,
    }
}

/// The summary line of one habit.
pub open spec fn habit_line(h: Habit) -> Seq<char> {
    "  - "@ + h.name@ + " ("@ + freq_label(h.frequency) + "): last completed "@ + (match h
        .last_completed {
        Some(t) => ts_minutes_of(t as int),
        None => "never"@,
    }) + "\n"@
}

/// Lines for the habits from position `i` on, in stored order.
pub open spec fn habit_lines(hs: Seq<Habit>, i: int) -> Seq<char>
    decreases hs.len() - i,
{
    if i < 0 || i >= hs.len() {
        Seq::empty()
    } else {
        habit_line(hs[i]) + habit_lines(hs, i + 1)
    }
}

/// How many of the events a summary shows: all of them, capped at
/// `maxev`.
pub open spec fn shown_count(evs: Seq<Event>, maxev: int) -> int {
    if evs.len() < maxev {
        evs.len() as int
    } else {
        maxev
    }
}

/// The whole context summary: user and timestamp header, optional
/// location and activity lines, the newest events (newest first), and the
/// habit list.
pub open spec fn summary_spec(c: Context, maxev: int) -> Seq<char> {
    "User: "@ + c.user_id@ + "\n"@ + "Timestamp: "@ + ts_full_of(c.timestamp as int) + "\n"@
        + (match c.current_location {
        Some(l) => "Location: "@ + l@ + "\n"@,
        None => Seq::empty(),
    }) + (match c.current_activity {
        Some(a) => "Activity: "@ + a@ + "\n"@,
        None => Seq::empty(),
    }) + (if c.recent_events@.len() > 0 {
        "\nRecent events:\n"@ + event_lines(c.recent_events@, 0, shown_count(c.recent_events@, maxev))
    } else {
        Seq::empty()
    }) + (if c.active_habits@.len() > 0 {
        "\nActive habits:\n"@ + habit_lines(c.active_habits@, 0)
    } else {
        Seq::empty()
    })
}

/// The habit frequency as the summary shows it.
fn freq_label_exec(f: &HabitFrequency) -> (r: String)
    ensures
        r@ == freq_label(*f),
{
    match f {
        HabitFrequency::Daily => String::from_str("Daily"),
        HabitFrequency::Weekly => String::from_str("Weekly"),
        HabitFrequency::Monthly => String::from_str("Monthly"),
        HabitFrequency::Custom(s) => {
            let mut out = String::from_str("Custom(\"");
            out.append(s.as_str());
            out.append("\")");
            proof {
                assert(out@ =~= "Custom(\""@ + s@ + "\")"@);
            }
            out
        },
    }
}

impl Planner {
    /// Builds the textual context summary used for language-model
    /// prompting: user, timestamp, optional location and activity, the
    /// newest events (at most `max_context_events`, newest first) and the
    /// active habits. Timestamps must lie in the renderer's range.
    #[verifier::rlimit(80)]
    pub fn build_context_summary(&self, context: &Context) -> (r: String)
        requires
            renderable_ts(context.timestamp as int),
            forall|i: int|
                context.recent_events@.len() - shown_count(
                    context.recent_events@,
                    self.max_context_events as int,
                ) <= i < context.recent_events@.len() ==> renderable_ts(
                    (#[trigger] context.recent_events@[i]).timestamp as int,
                ),
            forall|i: int|
                0 <= i < context.active_habits@.len() && (#[trigger] context.active_habits@[i]).last_completed
                    is Some ==> renderable_ts(context.active_habits@[i].last_completed->0 as int),
        ensures
            r@ == summary_spec(*context, self.max_context_events as int),
    {
        let mut out = String::from_str("User: ");
        out.append(context.user_id.as_str());
        out.append("\n");
        out.append("Timestamp: ");
        out.append(ts_full(context.timestamp).as_str());
        out.append("\n");
        if let Some(l) = &context.current_location {
            out.append("Location: ");
            out.append(l.as_str());
            out.append("\n");
        }
        if let Some(a) = &context.current_activity {
            out.append("Activity: ");
            out.append(a.as_str());
            out.append("\n");
        }
        let ghost head = out@;

        let evs = &context.recent_events;
        let n = evs.len();
        if n > 0 {
            out.append("\nRecent events:\n");
            let shown = if n < self.max_context_events {
                n
            } else {
                self.max_context_events
            };
            let ghost head2 = out@;
            let mut j: usize = 0;
            while j < shown
                invariant
                    n == evs@.len(),
                    evs == context.recent_events,
                    0 <= shown <= n,
                    shown == shown_count(evs@, self.max_context_events as int),
                    j <= shown,
                    forall|i: int|
                        n - shown <= i < n ==> renderable_ts(
                            (#[trigger] evs@[i]).timestamp as int,
                        ),
                    head2 + event_lines(evs@, 0, shown as int) == out@ + event_lines(
                        evs@,
                        j as int,
                        shown as int,
                    ),
                decreases shown - j,
            {
                let e = &evs[n - 1 - j];
                let ghost before = out@;
                out.append("  - ");
                out.append(e.event_type.as_str());
                out.append(" (");
                out.append(ts_minutes(e.timestamp).as_str());
                out.append("): ");
                out.append(e.description.as_str());
                out.append("\n");
                proof {
                    assert(out@ =~= before + event_line(evs@[n - 1 - j]));
                    assert(event_lines(evs@, j as int, shown as int) == event_line(
                        evs@[n - 1 - j],
                    ) + event_lines(evs@, j + 1, shown as int));
                    assert(head2 + event_lines(evs@, 0, shown as int) =~= out@ + event_lines(
                        evs@,
                        j + 1,
                        shown as int,
                    ));
                }
                j = j + 1;
            }
            proof {
                assert(event_lines(evs@, shown as int, shown as int) =~= Seq::<char>::empty());
                assert(out@ =~= head2 + event_lines(evs@, 0, shown as int));
                assert(out@ =~= head + ("\nRecent events:\n"@ + event_lines(
                    evs@,
                    0,
                    shown as int,
                )));
            }
        }
        let ghost mid = out@;

        let hs = &context.active_habits;
        let hn = hs.len();
        if hn > 0 {
            out.append("\nActive habits:\n");
            let ghost head3 = out@;
            let mut i: usize = 0;
            while i < hn
                invariant
                    hn == hs@.len(),
                    hs == context.active_habits,
                    i <= hn,
                    forall|k: int|
                        0 <= k < hn && (#[trigger] hs@[k]).last_completed is Some
                            ==> renderable_ts(hs@[k].last_completed->0 as int),
                    head3 + habit_lines(hs@, 0) == out@ + habit_lines(hs@, i as int),
                decreases hn - i,
            {
                let h = &hs[i];
                let ghost before = out@;
                out.append("  - ");
                out.append(h.name.as_str());
                out.append(" (");
                out.append(freq_label_exec(&h.frequency).as_str());
                out.append("): last completed ");
                match &h.last_completed {
                    Some(t) => out.append(ts_minutes(*t).as_str()),
                    None => out.append("never"),
                }
                out.append("\n");
                proof {
                    assert(out@ =~= before + habit_line(hs@[i as int]));
                    assert(habit_lines(hs@, i as int) == habit_line(hs@[i as int]) + habit_lines(
                        hs@,
                        i + 1,
                    ));
                    assert(head3 + habit_lines(hs@, 0) =~= out@ + habit_lines(hs@, i + 1));
                }
                i = i + 1;
            }
            proof {
                assert(habit_lines(hs@, hn as int) =~= Seq::<char>::empty());
                assert(out@ =~= head3 + habit_lines(hs@, 0));
                assert(out@ =~= mid + ("\nActive habits:\n"@ + habit_lines(hs@, 0)));
            }
        }
        proof {
            assert(out@ =~= summary_spec(*context, self.max_context_events as int));
        }
        out
    }
}

// --- event compression ------------------------------------------------------

/// No earlier event has the same type.
pub open spec fn is_first_of_type(evs: Seq<Event>, i: int) -> bool {
    forall|j: int| 0 <= j < i ==> (#[trigger] evs[j]).event_type@ != evs[i].event_type@
}

/// Number of events of type `t` among the first `upto`.
pub open spec fn count_type_upto(evs: Seq<Event>, t: Seq<char>, upto: int) -> int
    decreases upto,
{
    if upto <= 0 {
        0
    } else {
        count_type_upto(evs, t, upto - 1) + (if evs[upto - 1].event_type@ == t {
            1int
        } else {
            0int
        })
    }
}

/// Index among the first `upto` events of the most important event of
/// type `t`, the last such on ties; `-1` when there is none.
pub open spec fn best_idx(evs: Seq<Event>, t: Seq<char>, upto: int) -> int
    decreases upto,
{
    if upto <= 0 {
        -1
    } else {
        let b = best_idx(evs, t, upto - 1);
        if evs[upto - 1].event_type@ == t && (b == -1 || evs[upto - 1].importance
            >= evs[b].importance) {
            upto - 1
        } else {
            b
        }
    }
}

/// The summary block of one event type: its count and the description of
/// its most important event.
pub open spec fn group_block(evs: Seq<Event>, t: Seq<char>) -> Seq<char> {
    "  - "@ + t + ": "@ + dec_digits(count_type_upto(evs, t, evs.len() as int) as nat)
        + " occurrence(s)\n"@ + "    Most important: "@ + evs[best_idx(
        evs,
        t,
        evs.len() as int,
    )].description@ + "\n"@
}

/// One block per event type, in order of each type's first appearance.
pub open spec fn blocks_from(evs: Seq<Event>, i: int) -> Seq<char>
    decreases evs.len() - i,
{
    if i < 0 || i >= evs.len() {
        Seq::empty()
    } else if is_first_of_type(evs, i) {
        group_block(evs, evs[i].event_type@) + blocks_from(evs, i + 1)
    } else {
        blocks_from(evs, i + 1)
    }
}

/// The whole event compression.
pub open spec fn compress_spec(evs: Seq<Event>) -> Seq<char> {
    if evs.len() == 0 {
        "No recent events."@
    } else {
        "Event summary:\n"@ + blocks_from(evs, 0)
    }
}

impl Planner {
    /// Compresses events into a textual summary: one block per event
    /// type, in order of first appearance, giving the type's occurrence
    /// count and the description of its most important event (the last
    /// one on ties).
    pub fn compress_events(&self, events: &Vec<Event>) -> (r: String)
        ensures
            r@ == compress_spec(events@),
    {
        let n = events.len();
        if n == 0 {
            return String::from_str("No recent events.");
        }
        let mut out = String::from_str("Event summary:\n");
        let ghost head = out@;
        let mut i: usize = 0;
        while i < n
            invariant
                n == events@.len(),
                i <= n,
                head + blocks_from(events@, 0) == out@ + blocks_from(events@, i as int),
            decreases n - i,
        {
            if first_of_type_exec(events, i) {
                let t = &events[i].event_type;
                let ghost ts = t@;
                let ghost before = out@;

                let mut cnt: usize = 0;
                let mut j: usize = 0;
                while j < n
                    invariant
                        n == events@.len(),
                        i < n,
                        ts == events@[i as int].event_type@,
                        t == events@[i as int].event_type,
                        j <= n,
                        cnt <= j,
                        cnt == count_type_upto(events@, ts, j as int),
                    decreases n - j,
                {
                    if str_eq(events[j].event_type.as_str(), t.as_str()) {
                        cnt = cnt + 1;
                    }
                    j = j + 1;
                }

                let mut best: usize = 0;
                let mut found = false;
                let mut j2: usize = 0;
                while j2 < n
                    invariant
                        n == events@.len(),
                        i < n,
                        ts == events@[i as int].event_type@,
                        t == events@[i as int].event_type,
                        j2 <= n,
                        found <==> best_idx(events@, ts, j2 as int) != -1,
                        found ==> best == best_idx(events@, ts, j2 as int) && best < n,
                    decreases n - j2,
                {
                    if str_eq(events[j2].event_type.as_str(), t.as_str()) && (!found
                        || events[j2].importance >= events[best].importance) {
                        best = j2;
                        found = true;
                    }
                    j2 = j2 + 1;
                }

                proof {
                    assert(found) by {
                        assert(best_idx(events@, ts, i + 1) != -1);
                        lemma_best_idx_monotone(events@, ts, i + 1, n as int);
                    }
                }
                out.append("  - ");
                out.append(t.as_str());
                out.append(": ");
                out.append(u64_string(cnt as u64).as_str());
                out.append(" occurrence(s)\n");
                out.append("    Most important: ");
                out.append(events[best].description.as_str());
                out.append("\n");
                proof {
                    assert(out@ =~= before + group_block(events@, ts));
                    assert(blocks_from(events@, i as int) == group_block(events@, ts)
                        + blocks_from(events@, i + 1));
                    assert(head + blocks_from(events@, 0) =~= out@ + blocks_from(events@, i + 1));
                }
            }
            i = i + 1;
        }
        proof {
            assert(blocks_from(events@, n as int) =~= Seq::<char>::empty());
            assert(out@ =~= head + blocks_from(events@, 0));
        }
        out
    }
}

/// Once a best index exists it keeps existing as the scan extends.
proof fn lemma_best_idx_monotone(evs: Seq<Event>, t: Seq<char>, a: int, b: int)
    requires
        0 <= a <= b,
        best_idx(evs, t, a) != -1,
    ensures
        best_idx(evs, t, b) != -1,
    decreases b - a,
{
    if a < b {
        lemma_best_idx_monotone(evs, t, a, b - 1);
    }
}

fn first_of_type_exec(events: &Vec<Event>, i: usize) -> (r: bool)
    requires
        i < events@.len(),
    ensures
        r == is_first_of_type(events@, i as int),
{
    let mut j: usize = 0;
    while j < i
        invariant
            i < events@.len(),
            j <= i,
            forall|k: int| 0 <= k < j ==> (#[trigger] events@[k]).event_type@ != events@[i as int].event_type@,
        decreases i - j,
    {
        if str_eq(events[j].event_type.as_str(), events[i].event_type.as_str()) {
            return false;
        }
        j = j + 1;
    }
    true
}

// --- suggestions ------------------------------------------------------------

/// Expected hours between completions for a frequency.
pub open spec fn expected_hours(f: HabitFrequency) -> int {
    match f {
        HabitFrequency::Daily => 24,
        HabitFrequency::Weekly => 168,
        HabitFrequency::Monthly => 720,
        HabitFrequency::Custom(_) => 24,
    }
}

/// The suggestion one habit yields at instant `now`: start it when it was
/// never completed, reconsider it when at least its expected interval of
/// whole hours has passed, nothing otherwise.
pub open spec fn habit_suggestion(h: Habit, now: int) -> Seq<Seq<char>> {
    match h.last_completed {
        None => seq!["Start habit: "@ + h.name@],
        Some(last) => if now >= last && (now - last) / 3600 >= expected_hours(h.frequency) {
            seq!["Consider: "@ + h.name@]
        } else {
            Seq::empty()
        },
    }
}

/// The suggestions of the habits from position `i` on.
pub open spec fn habit_suggestions_from(hs: Seq<Habit>, now: int, i: int) -> Seq<Seq<char>>
    decreases hs.len() - i,
{
    if i < 0 || i >= hs.len() {
        Seq::empty()
    } else {
        habit_suggestion(hs[i], now) + habit_suggestions_from(hs, now, i + 1)
    }
}

/// All suggestions for the context at instant `now`: one per due or
/// unstarted habit, in stored order, and a break reminder while working.
pub open spec fn suggestions_spec(c: Context, now: int) -> Seq<Seq<char>> {
    habit_suggestions_from(c.active_habits@, now, 0) + (if c.current_activity is Some
        && c.current_activity->0@ == "working"@ {
        seq!["Take a break?"@]
    } else {
        Seq::empty()
    })
}

impl Planner {
    /// The suggestions for the context, judged at instant `now`: these
    /// are suggestions, not commands, and the user must authorize them.
    pub fn suggest_actions_at(&self, context: &Context, now: i64) -> (r: Vec<String>)
        ensures
            r@.map_values(|s: String| s@) == suggestions_spec(*context, now as int),
    {
        let mut out: Vec<String> = Vec::new();
        let hs = &context.active_habits;
        let n = hs.len();
        let mut i: usize = 0;
        proof {
            assert(out@.map_values(|s: String| s@) =~= Seq::<Seq<char>>::empty());
        }
        while i < n
            invariant
                n == hs@.len(),
                hs == context.active_habits,
                i <= n,
                out@.map_values(|s: String| s@) + habit_suggestions_from(hs@, now as int, i as int)
                    == habit_suggestions_from(hs@, now as int, 0),
            decreases n - i,
        {
            let h = &hs[i];
            let ghost pre = out@.map_values(|s: String| s@);
            match &h.last_completed {
                None => {
                    let mut msg = String::from_str("Start habit: ");
                    msg.append(h.name.as_str());
                    out.push(msg);
                    proof {
                        assert(out@.map_values(|s: String| s@) =~= pre + habit_suggestion(
                            hs@[i as int],
                            now as int,
                        ));
                    }
                },
                Some(last) => {
                    let due: bool = if now >= *last {
                        let diff: i128 = now as i128 - *last as i128;
                        let hours: i128 = diff / 3600;
                        let exp: i128 = match &h.frequency {
                            HabitFrequency::Daily => 24,
                            HabitFrequency::Weekly => 168,
                            HabitFrequency::Monthly => 720,
                            HabitFrequency::Custom(_) => 24,
                        };
                        hours >= exp
                    } else {
                        false
                    };
                    if due {
                        let mut msg = String::from_str("Consider: ");
                        msg.append(h.name.as_str());
                        out.push(msg);
                    }
                    proof {
                        assert(out@.map_values(|s: String| s@) =~= pre + habit_suggestion(
                            hs@[i as int],
                            now as int,
                        ));
                    }
                },
            }
            proof {
                assert(habit_suggestions_from(hs@, now as int, i as int) == habit_suggestion(
                    hs@[i as int],
                    now as int,
                ) + habit_suggestions_from(hs@, now as int, i + 1));
                assert(pre + habit_suggestion(hs@[i as int], now as int)
                    + habit_suggestions_from(hs@, now as int, i + 1) =~= pre + (habit_suggestion(
                    hs@[i as int],
                    now as int,
                ) + habit_suggestions_from(hs@, now as int, i + 1)));
            }
            i = i + 1;
        }
        proof {
            assert(habit_suggestions_from(hs@, now as int, n as int) =~= Seq::<Seq<char>>::empty());
            assert(out@.map_values(|s: String| s@) + habit_suggestions_from(
                hs@,
                now as int,
                n as int,
            ) =~= out@.map_values(|s: String| s@));
        }
        let ghost pre2 = out@.map_values(|s: String| s@);
        if let Some(a) = &context.current_activity {
            if str_eq(a.as_str(), "working") {
                out.push(String::from_str("Take a break?"));
            }
        }
        proof {
            assert(out@.map_values(|s: String| s@) =~= suggestions_spec(*context, now as int));
        }
        out
    }

    /// The suggestions for the context at the current wall-clock instant,
    /// read once.
    pub fn suggest_actions(&self, context: &Context) -> (r: Vec<String>)
        ensures
            exists|now: int|
                r@.map_values(|s: String| s@) == #[trigger] suggestions_spec(*context, now),
    {
        let now = crate::types::now_ts();
        let r = self.suggest_actions_at(context, now);
        proof {
            assert(r@.map_values(|s: String| s@) == suggestions_spec(*context, now as int));
        }
        r
    }
}

impl Default for Planner {
    fn default() -> (r: Self)
        ensures
            r.max_context_events == 10,
    {
        Planner::new()
    }
}

} // verus!
