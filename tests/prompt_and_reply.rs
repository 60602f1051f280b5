use hevy_overload::deload::DeloadContext;
use hevy_overload::models::{Exercise, ExerciseSet, Quantity, RoutineResponse, WorkoutResponse};
use hevy_overload::overload::{ProcessingError, ProgressiveOverloadRequest, ProgressiveOverloadService};
use hevy_overload::deload::SearchStep;
use hevy_overload::prompt::{
    build_progressive_overload_prompt, format_reps, format_routine_for_prompt,
    format_workout_for_prompt, push_tenths,
};
use hevy_overload::reply::{extract_json_from_response, parse_gemini_response, reply_from_fields};

fn set(index: u32, set_type: &str, tenths: Option<i64>, reps: Option<u32>) -> ExerciseSet {
    ExerciseSet {
        index,
        set_type: set_type.to_string(),
        weight_kg: tenths.map(|t| Quantity { raw: 0, tenths: t }),
        reps,
        distance_meters: None,
        duration_seconds: None,
        rpe: None,
        custom_metric: None,
    }
}

fn bench() -> Exercise {
    Exercise {
        index: 0,
        title: "Bench Press (Barbell)".to_string(),
        notes: None,
        exercise_template_id: "79D0BB3A".to_string(),
        superset_id: None,
        rest_seconds: Some(120),
        sets: vec![
            set(0, "warmup", Some(400), Some(10)),
            set(1, "normal", Some(825), Some(5)),
            set(2, "normal", None, None),
        ],
    }
}

fn workout(title: &str, routine_id: &str) -> WorkoutResponse {
    WorkoutResponse {
        id: "W1".to_string(),
        title: title.to_string(),
        routine_id: routine_id.to_string(),
        description: String::new(),
        start_time: "2024-05-01T10:00:00Z".to_string(),
        end_time: "2024-05-01T11:00:00Z".to_string(),
        updated_at: "2024-05-01T11:00:00Z".to_string(),
        created_at: "2024-05-01T11:00:00Z".to_string(),
        exercises: vec![bench()],
    }
}

fn routine() -> RoutineResponse {
    RoutineResponse {
        id: "R1".to_string(),
        title: "Upper".to_string(),
        folder_id: None,
        updated_at: "2024-05-01T11:00:00Z".to_string(),
        created_at: "2024-04-01T11:00:00Z".to_string(),
        exercises: vec![bench()],
    }
}

#[test]
fn workout_is_rendered_set_by_set() {
    let text = format_workout_for_prompt(&workout("Day 1 - Week 2", "R1"));
    assert_eq!(
        text,
        "Workout Title: Day 1 - Week 2\nStart Time: 2024-05-01T10:00:00Z\nEnd Time: 2024-05-01T11:00:00Z\n\nExercises:\n- Bench Press (Barbell) (79D0BB3A)\n  * Set 1: 40kg x 10 (warmup)\n  * Set 2: 82.5kg x 5 (normal)\n  * Set 3: BW x N/A (normal)\n\n"
    );
}

#[test]
fn routine_is_rendered_as_template() {
    let text = format_routine_for_prompt(&routine());
    assert!(text.starts_with("ROUTINE TEMPLATE:\nRoutine: Upper\n\nExercises:\n- Bench Press (Barbell) (79D0BB3A)\n"));
}

#[test]
fn reps_and_tenths_render_exactly() {
    assert_eq!(format_reps(Some(7)), "7");
    assert_eq!(format_reps(None), "N/A");
    let mut s = String::new();
    push_tenths(&mut s, -25);
    push_tenths(&mut s, 0);
    push_tenths(&mut s, -5);
    push_tenths(&mut s, 1000);
    assert_eq!(s, "-2.50-0.5100");
}

#[test]
fn prompt_carries_weeks_and_title() {
    let context = DeloadContext {
        next_week_index: 3,
        cycle_instruction: String::new(),
        reference_data: String::new(),
    };
    let prompt = build_progressive_overload_prompt(
        &workout("Day 1 - Week 2", "R1"),
        &routine(),
        &context,
        2,
        "Day 1 - Week 3",
    );
    assert!(prompt.starts_with("You are a professional strength and conditioning coach"));
    assert!(prompt.contains("- Currently in week 2 of 8-week block\n"));
    assert!(prompt.contains("\"week_number\": 3,\n    \"routine_title\": \"Day 1 - Week 3\"\n}"));
    assert!(prompt.ends_with("CURRENT WEEK: 2\nNEXT WEEK TARGET: 3"));
    assert!(prompt.contains("ALWAYS use null"));
    assert!(!prompt.contains("\"rpe\":"));
    assert!(prompt.contains("Never include an \"rpe\" field"));
    assert!(prompt.contains("\"duration_seconds\": null,\n                    \"custom_metric\": null\n"));
}

#[test]
fn end_to_end_reply_keeps_the_next_title() {
    let service = ProgressiveOverloadService::new();
    let reply = "Plan:\n```json\n{\"updated_exercises\": [{\"index\": 0}], \"week_number\": 3, \"routine_title\": \"Day 1 - Week 3\"}\n```\nGood luck";
    let doc = service.parse_gemini_response(reply).unwrap();
    assert_eq!(doc.routine_title, "Day 1 - Week 3");
    assert_eq!(doc.week_number, 3);
    assert_eq!(doc.updated_exercises.len(), 1);
    let big = "{\"updated_exercises\": [], \"week_number\": 4294967296}";
    assert_eq!(parse_gemini_response(big).unwrap().week_number, 1);
    assert_eq!(
        parse_gemini_response("{\"updated_exercises\": \"none\"}").unwrap_err(),
        ProcessingError::MalformedResponse
    );
}

#[test]
fn end_to_end_titles_and_search() {
    let service = ProgressiveOverloadService::new();
    let request = ProgressiveOverloadRequest {
        current_workout: workout("Day 1 - Week 2", "R1"),
        routine: routine(),
    };
    let (_, step) = service.start_reference_search(&request);
    assert_eq!(step, SearchStep::NotFound);
    let prompt = service.build_progressive_overload_prompt(&request, None);
    assert!(prompt.contains("\"routine_title\": \"Day 1 - Week 3\""));
    assert!(prompt.contains("NEXT WEEK TARGET: 3"));

    let request = ProgressiveOverloadRequest { current_workout: workout("Week 8", "R1"), routine: routine() };
    assert_eq!(service.determine_routine_title_format("Week 8"), "Week 1");
    let (_, step) = service.start_reference_search(&request);
    assert_eq!(step, SearchStep::Fetch { page: 0, page_size: 10 });
    let prompt = service.build_progressive_overload_prompt(&request, None);
    assert!(prompt.contains("\"routine_title\": \"Week 1\""));
    assert!(prompt.contains(" CYCLE TRANSITION"));
}

#[test]
fn json_is_taken_from_the_fenced_block() {
    assert_eq!(
        extract_json_from_response("Here you go:\n```json\n {\"a\": 1} \n```\nThanks"),
        "{\"a\": 1}"
    );
    assert_eq!(extract_json_from_response("```json\n[1]\n"), "[1]");
    assert_eq!(extract_json_from_response("  {\"b\": 2}\n\t"), "{\"b\": 2}");
    assert_eq!(extract_json_from_response("```\n{}\n```"), "```\n{}\n```");
    assert_eq!(extract_json_from_response(""), "");
}

#[test]
fn reply_with_defaults_parses() {
    let reply = "Sure!\n```json\n{\"updated_exercises\": [{\"index\": 0}, {\"index\": 1}]}\n```";
    let doc = parse_gemini_response(reply).unwrap();
    assert_eq!(doc.updated_exercises.len(), 2);
    assert_eq!(doc.week_number, 1);
    assert_eq!(doc.routine_title, "Updated Routine");
}

#[test]
fn reply_fields_are_read() {
    let reply = "{\"updated_exercises\": [], \"week_number\": 4, \"routine_title\": \"Day 2 - Week 4\"}";
    let doc = parse_gemini_response(reply).unwrap();
    assert_eq!(doc.updated_exercises.len(), 0);
    assert_eq!(doc.week_number, 4);
    assert_eq!(doc.routine_title, "Day 2 - Week 4");
    let odd = "{\"updated_exercises\": [1], \"week_number\": \"four\", \"routine_title\": 7}";
    let doc = parse_gemini_response(odd).unwrap();
    assert_eq!(doc.week_number, 1);
    assert_eq!(doc.routine_title, "Updated Routine");
}

#[test]
fn reply_without_exercises_is_malformed() {
    assert_eq!(
        parse_gemini_response("{\"week_number\": 2}").unwrap_err(),
        ProcessingError::MalformedResponse
    );
    assert_eq!(
        parse_gemini_response("{\"updated_exercises\": {}}").unwrap_err(),
        ProcessingError::MalformedResponse
    );
    assert_eq!(
        parse_gemini_response("not json at all").unwrap_err(),
        ProcessingError::MalformedResponse
    );
}

#[test]
fn reply_fields_assemble() {
    let items = vec![serde_json::Value::Null, serde_json::Value::Bool(true), serde_json::Value::Null];
    let doc = reply_from_fields(Some(items), Some(4_294_967_298), None).unwrap();
    assert_eq!(doc.updated_exercises.len(), 3);
    assert_eq!(doc.week_number, 1);
    let doc = reply_from_fields(Some(Vec::new()), Some(4_294_967_295), None).unwrap();
    assert_eq!(doc.week_number, 4_294_967_295);
    assert_eq!(doc.routine_title, "Updated Routine");
    assert_eq!(
        reply_from_fields(None, Some(3), Some("x".to_string())).unwrap_err(),
        ProcessingError::MalformedResponse
    );
}
