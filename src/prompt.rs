//! The instruction document handed to the language model: the session just
//! performed, the routine to update, the cycle context and the reply schema.
use vstd::prelude::*;
use crate::deload::DeloadContext;
use crate::models::{Exercise, ExerciseSet, Quantity, RoutineResponse, WorkoutResponse};
use crate::text::{decimal, push_decimal};

verus! {

pub const PROMPT_OPENING: &'static str = "You are a professional strength and conditioning coach specializing in block periodization for an 8-week strength-focused training cycle.\n\nCURRENT WORKOUT DATA:\n";

pub const PROMPT_CONTEXT: &'static str = "\n\nTRAINING CONTEXT:\n- Client is a hybrid athlete (strength + cardio)\n- Focuses on main compound movements: Bench Press, Squat, Overhead Press, Romanian Deadlift, Pendlay Row\n- Prefers low-moderate volume (2-4 sets per exercise)\n- Uses 3-day split: Day 1 (Upper), Day 2 (Lower), Day 3 (Full Body)\n- Prioritizes strength gains over hypertrophy\n- Currently in week ";

pub const PROMPT_CONSTRAINTS: &'static str = " of 8-week block\n- If there is a set with 1 rep with weight of 1, then it was a to failure set on an arbitrary weight. Keep the weight at 1 when.\n- The smallest weight plate for barbell exercises available is 2.5kg (5kg if both sides)\n- Don't add a warmup, if there was a warmup from the workout leave it as is";

pub const PROMPT_SCHEMA: &'static str = "\n\nPERIODIZATION STRATEGY:\nWeek 1-2: Foundation (7 reps @ 75%, 2-3 sets)\nWeek 3-4: Intensity increase (6 reps @ 80%, 3-4 sets)\nWeek 5-6: Heavy work (5 reps @ 85%, 3-4 sets)\nWeek 7: Testing (3-5RM attempts @ 90%+)\nWeek 8: Deload (5 reps @ 60%, 2-3 sets)\n\nPROGRESSION RULES:\n1. Start conservatively with 2 sets, build to 3-4 sets max\n2. Prioritize intensity over volume\n3. Use same exercises throughout block\n4. Progress: reps → weight → sets → testing\n5. Accessories stay minimal (2 sets, RPE 6-7)\n6. You MUST use the SAME exercises from the current workout\n7. Keep exercise notes CONCISE - only include RPE targets, no explanatory text\n8. For any field that has no meaningful value, ALWAYS use null, never \"N/A\" or empty strings\n9. Never include an \"rpe\" field in a set: it cannot be written back\n\nOUTPUT FORMAT:\nReturn ONLY a JSON object with this exact structure:\n{\n    \"updated_exercises\": [\n        {\n            \"index\": 0,\n            \"title\": \"Exercise Name\",\n            \"notes\": \"RPE 8\",\n            \"exercise_template_id\": \"original_id\",\n            \"superset_id\": null,\n            \"sets\": [\n                {\n                    \"index\": 0,\n                    \"type\": \"normal\",\n                    \"weight_kg\": 85.0,\n                    \"reps\": 7,\n                    \"distance_meters\": null,\n                    \"duration_seconds\": null,\n                    \"custom_metric\": null\n                }\n            ]\n        }\n    ],\n    \"week_number\": ";

/// A value in tenths written as a decimal: whole values without a point,
/// others with one digit after it.
pub open spec fn tenths_text(t: int) -> Seq<char> {
    let a = if t < 0 {
        -t
    } else {
        t
    };
    let sign = if t < 0 {
        "-"@
    } else {
        ""@
    };
    if a % 10 == 0 {
        sign + decimal((a / 10) as nat)
    } else {
        sign + decimal((a / 10) as nat) + "."@ + decimal((a % 10) as nat)
    }
}

pub open spec fn weight_text(w: Option<Quantity>) -> Seq<char> {
    match w {
        Some(q) => tenths_text(q.tenths as int) + "kg"@,
        None => "BW"@,
    }
}

pub open spec fn reps_text(r: Option<u32>) -> Seq<char> {
    match r {
        Some(n) => decimal(n as nat),
        None => "N/A"@,
    }
}

pub open spec fn set_line(s: ExerciseSet) -> Seq<char> {
    "  * Set "@ + decimal((s.index + 1) as nat) + ": "@ + weight_text(s.weight_kg) + " x "@
        + reps_text(s.reps) + " ("@ + s.set_type@ + ")\n"@
}

pub open spec fn sets_text(sets: Seq<ExerciseSet>) -> Seq<char>
    decreases sets.len(),
{
    if sets.len() == 0 {
        Seq::empty()
    } else {
        sets_text(sets.drop_last()) + set_line(sets.last())
    }
}

pub open spec fn exercise_block(e: Exercise) -> Seq<char> {
    "- "@ + e.title@ + " ("@ + e.exercise_template_id@ + ")\n"@ + sets_text(e.sets@) + "\n"@
}

pub open spec fn exercises_text(es: Seq<Exercise>) -> Seq<char>
    decreases es.len(),
{
    if es.len() == 0 {
        Seq::empty()
    } else {
        exercises_text(es.drop_last()) + exercise_block(es.last())
    }
}

pub open spec fn workout_text(w: WorkoutResponse) -> Seq<char> {
    "Workout Title: "@ + w.title@ + "\n"@ + "Start Time: "@ + w.start_time@ + "\n"@
        + "End Time: "@ + w.end_time@ + "\n"@ + "\nExercises:\n"@ + exercises_text(
        w.exercises@,
    )
}

pub open spec fn routine_text(r: RoutineResponse) -> Seq<char> {
    "ROUTINE TEMPLATE:\nRoutine: "@ + r.title@ + "\n\nExercises:\n"@ + exercises_text(r.exercises@)
}

/// The instruction document: the session, the routine, the reference
/// workout text, the current week, the cycle instruction, the reply schema
/// with the next week and the next routine title.
pub open spec fn prompt_text(
    workout: WorkoutResponse,
    routine: RoutineResponse,
    next_week: u32,
    cycle_instruction: Seq<char>,
    reference_data: Seq<char>,
    week: u32,
    title: Seq<char>,
) -> Seq<char> {
    PROMPT_OPENING@ + workout_text(workout) + "\n\n"@ + routine_text(routine) + reference_data
        + PROMPT_CONTEXT@ + decimal(week as nat) + PROMPT_CONSTRAINTS@ + cycle_instruction
        + PROMPT_SCHEMA@ + decimal(next_week as nat) + ",\n    \"routine_title\": \""@ + title
        + "\"\n}\n\nCURRENT WEEK: "@ + decimal(week as nat) + "\nNEXT WEEK TARGET: "@ + decimal(
        next_week as nat,
    )
}

/// Appends a value in tenths, as `tenths_text` writes it.
pub fn push_tenths(out: &mut String, t: i64)
    ensures
        final(out)@ == old(out)@ + tenths_text(t as int),
{
    let a: u64 = if t < 0 {
        (0i128 - t as i128) as u64
    } else {
        t as u64
    };
    if t < 0 {
        out.append("-");
    } else {
        out.append("");
    }
    push_decimal(out, a / 10);
    if a % 10 != 0 {
        out.append(".");
        push_decimal(out, a % 10);
    }
    assert(final(out)@ =~= old(out)@ + tenths_text(t as int));
}

fn push_weight(out: &mut String, w: Option<Quantity>)
    ensures
        final(out)@ == old(out)@ + weight_text(w),
{
    match w {
        Some(q) => {
            push_tenths(out, q.tenths);
            out.append("kg");
        },
        None => out.append("BW"),
    }
    assert(final(out)@ =~= old(out)@ + weight_text(w));
}

/// The repetitions of a set, or "N/A" where it has none.
pub fn format_reps(reps: Option<u32>) -> (r: String)
    ensures
        r@ == reps_text(reps),
{
    match reps {
        Some(n) => crate::text::decimal_string(n as u64),
        None => String::from_str("N/A"),
    }
}

fn push_sets(out: &mut String, sets: &Vec<ExerciseSet>)
    ensures
        final(out)@ == old(out)@ + sets_text(sets@),
{
    let ghost start = out@;
    let mut i: usize = 0;
    while i < sets.len()
        invariant
            i <= sets@.len(),
            out@ == start + sets_text(sets@.subrange(0, i as int)),
        decreases sets.len() - i,
    {
        let s = &sets[i];
        out.append("  * Set ");
        push_decimal(out, s.index as u64 + 1);
        out.append(": ");
        push_weight(out, s.weight_kg);
        out.append(" x ");
        let reps = format_reps(s.reps);
        out.append(reps.as_str());
        out.append(" (");
        out.append(s.set_type.as_str());
        out.append(")\n");
        proof {
            let next = sets@.subrange(0, i + 1);
            assert(next.drop_last() =~= sets@.subrange(0, i as int));
            assert(next.last() == *s);
            assert(out@ =~= start + sets_text(next));
        }
        i += 1;
    }
    assert(sets@.subrange(0, sets@.len() as int) =~= sets@);
}

fn push_exercises(out: &mut String, exercises: &Vec<Exercise>)
    ensures
        final(out)@ == old(out)@ + exercises_text(exercises@),
{
    let ghost start = out@;
    let mut i: usize = 0;
    while i < exercises.len()
        invariant
            i <= exercises@.len(),
            out@ == start + exercises_text(exercises@.subrange(0, i as int)),
        decreases exercises.len() - i,
    {
        let e = &exercises[i];
        out.append("- ");
        out.append(e.title.as_str());
        out.append(" (");
        out.append(e.exercise_template_id.as_str());
        out.append(")\n");
        push_sets(out, &e.sets);
        out.append("\n");
        proof {
            let next = exercises@.subrange(0, i + 1);
            assert(next.drop_last() =~= exercises@.subrange(0, i as int));
            assert(next.last() == *e);
            assert(out@ =~= start + exercises_text(next));
        }
        i += 1;
    }
    assert(exercises@.subrange(0, exercises@.len() as int) =~= exercises@);
}

/// The session as the prompt shows it: title, time window, then each
/// exercise with each set's number, weight, repetitions and type.
pub fn format_workout_for_prompt(workout: &WorkoutResponse) -> (r: String)
    ensures
        r@ == workout_text(*workout),
{
    let mut out = String::from_str("Workout Title: ");
    out.append(workout.title.as_str());
    out.append("\n");
    out.append("Start Time: ");
    out.append(workout.start_time.as_str());
    out.append("\n");
    out.append("End Time: ");
    out.append(workout.end_time.as_str());
    out.append("\n");
    out.append("\nExercises:\n");
    push_exercises(&mut out, &workout.exercises);
    assert(out@ =~= workout_text(*workout));
    out
}

/// The routine template as the prompt shows it.
pub fn format_routine_for_prompt(routine: &RoutineResponse) -> (r: String)
    ensures
        r@ == routine_text(*routine),
{
    let mut out = String::from_str("ROUTINE TEMPLATE:\nRoutine: ");
    out.append(routine.title.as_str());
    out.append("\n\nExercises:\n");
    push_exercises(&mut out, &routine.exercises);
    assert(out@ =~= routine_text(*routine));
    out
}

/// The whole instruction document for one request.
pub fn build_progressive_overload_prompt(
    workout: &WorkoutResponse,
    routine: &RoutineResponse,
    deload_context: &DeloadContext,
    current_week_index: u32,
    routine_title: &str,
) -> (r: String)
    ensures
        r@ == prompt_text(
            *workout,
            *routine,
            deload_context.next_week_index,
            deload_context.cycle_instruction@,
            deload_context.reference_data@,
            current_week_index,
            routine_title@,
        ),
{
    let mut out = String::from_str(PROMPT_OPENING);
    out.append(format_workout_for_prompt(workout).as_str());
    out.append("\n\n");
    out.append(format_routine_for_prompt(routine).as_str());
    out.append(deload_context.reference_data.as_str());
    out.append(PROMPT_CONTEXT);
    push_decimal(&mut out, current_week_index as u64);
    out.append(PROMPT_CONSTRAINTS);
    out.append(deload_context.cycle_instruction.as_str());
    out.append(PROMPT_SCHEMA);
    push_decimal(&mut out, deload_context.next_week_index as u64);
    out.append(",\n    \"routine_title\": \"");
    out.append(routine_title);
    out.append("\"\n}\n\nCURRENT WEEK: ");
    push_decimal(&mut out, current_week_index as u64);
    out.append("\nNEXT WEEK TARGET: ");
    push_decimal(&mut out, deload_context.next_week_index as u64);
    assert(out@ =~= prompt_text(
        *workout,
        *routine,
        deload_context.next_week_index,
        deload_context.cycle_instruction@,
        deload_context.reference_data@,
        current_week_index,
        routine_title@,
    ));
    out
}

} // verus!
