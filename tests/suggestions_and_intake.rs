use hevy_overload::config::Config;
use hevy_overload::intake::{
    advance_event, authenticate_request, build_routine_update, workout_has_routine, EventStage,
    ProcessedWorkouts,
};
use hevy_overload::models::{Exercise, ExerciseSet, Quantity, RoutineResponse, WorkoutResponse};
use hevy_overload::overload::{ProcessingError, ProgressiveOverloadResponse};
use hevy_overload::suggestions::{build_exercise_suggestions, extract_rpe_from_notes};
use hevy_overload::sync::{is_recent, select_for_sync};

fn set(set_type: &str, tenths: Option<i64>, reps: Option<u32>) -> ExerciseSet {
    ExerciseSet {
        index: 0,
        set_type: set_type.to_string(),
        weight_kg: tenths.map(|t| Quantity { raw: 7, tenths: t }),
        reps,
        distance_meters: None,
        duration_seconds: None,
        rpe: Some(Quantity { raw: 9, tenths: 80 }),
        custom_metric: None,
    }
}

fn exercise(id: &str, notes: Option<&str>, sets: Vec<ExerciseSet>) -> Exercise {
    Exercise {
        index: 0,
        title: format!("Exercise {}", id),
        notes: notes.map(|n| n.to_string()),
        exercise_template_id: id.to_string(),
        superset_id: None,
        rest_seconds: Some(90),
        sets,
    }
}

fn response(exercises: Vec<Exercise>) -> ProgressiveOverloadResponse {
    ProgressiveOverloadResponse { updated_exercises: exercises, week_number: 3, routine_title: "Day 1 - Week 3".to_string() }
}

fn config(token: &str) -> Config {
    Config {
        hevy_api_key: "key".to_string(),
        hevy_api_url: "https://api.hevyapp.com".to_string(),
        webhook_token: token.to_string(),
        port: "3000".to_string(),
        gemini_api_key: "key".to_string(),
        gemini_model: "model".to_string(),
    }
}

fn workout(id: &str, routine_id: &str, created_at: &str) -> WorkoutResponse {
    WorkoutResponse {
        id: id.to_string(),
        title: "Day 1 - Week 2".to_string(),
        routine_id: routine_id.to_string(),
        description: String::new(),
        start_time: String::new(),
        end_time: String::new(),
        updated_at: String::new(),
        created_at: created_at.to_string(),
        exercises: Vec::new(),
    }
}

#[test]
fn suggestion_lines_follow_the_working_sets() {
    let r = response(vec![exercise(
        "A",
        Some("Keep RPE 7-8 on all sets"),
        vec![set("warmup", Some(400), Some(10)), set("normal", Some(800), Some(5)), set("normal", None, Some(5)), set("failure", Some(825), None)],
    )]);
    let s = build_exercise_suggestions(&r);
    assert_eq!(s.len(), 1);
    assert_eq!(s.get(&"A".to_string()).unwrap(), "3 sets\nRPE 7-8\n80x5\n5 reps\n82.5x?");
}

#[test]
fn all_warmup_exercises_get_no_entry() {
    let r = response(vec![
        exercise("W", None, vec![set("warmup", Some(200), Some(10)), set("WarmUp", None, Some(8))]),
        exercise("E", None, vec![]),
        exercise("N", None, vec![set("normal", Some(1000), Some(3))]),
    ]);
    let s = build_exercise_suggestions(&r);
    assert_eq!(s.len(), 1);
    assert!(s.get(&"W".to_string()).is_none());
    assert!(s.get(&"E".to_string()).is_none());
    assert_eq!(s.get(&"N".to_string()).unwrap(), "1 sets\n100x3");
}

#[test]
fn later_exercise_with_same_template_wins() {
    let r = response(vec![
        exercise("A", None, vec![set("normal", Some(500), Some(5))]),
        exercise("A", None, vec![set("dropset", Some(300), Some(12))]),
    ]);
    let s = build_exercise_suggestions(&r);
    assert_eq!(s.len(), 1);
    assert_eq!(s.get(&"A".to_string()).unwrap(), "1 sets\n30x12");
}

#[test]
fn rpe_is_read_from_notes() {
    assert_eq!(extract_rpe_from_notes("RPE 8"), Some("8".to_string()));
    assert_eq!(extract_rpe_from_notes("target rpe: 7-8"), Some("7-8".to_string()));
    assert_eq!(extract_rpe_from_notes("rpe around 9"), Some("9".to_string()));
    assert_eq!(extract_rpe_from_notes("rpe is about 9"), None);
    assert_eq!(extract_rpe_from_notes("no target"), None);
    assert_eq!(extract_rpe_from_notes("RPE --"), None);
    assert_eq!(extract_rpe_from_notes("RPE"), None);
}

#[test]
fn bearer_token_must_match_exactly() {
    let c = config("s3cret");
    assert_eq!(authenticate_request(Some("Bearer s3cret"), &c), Ok(()));
    assert_eq!(authenticate_request(Some("Bearer s3cre"), &c), Err(ProcessingError::AuthError));
    assert_eq!(authenticate_request(Some("bearer s3cret"), &c), Err(ProcessingError::AuthError));
    assert_eq!(authenticate_request(Some("s3cret"), &c), Err(ProcessingError::AuthError));
    assert_eq!(authenticate_request(None, &c), Err(ProcessingError::AuthError));
    assert_eq!(authenticate_request(Some("Bearer "), &config("")), Ok(()));
}

#[test]
fn processed_set_records_each_id_once() {
    let mut p = ProcessedWorkouts::new();
    assert!(!p.contains(&"a".to_string()));
    assert!(p.mark_processed("a".to_string()));
    assert!(!p.mark_processed("a".to_string()));
    assert!(p.contains(&"a".to_string()));
    assert!(!p.contains(&"b".to_string()));
}

#[test]
fn routine_presence() {
    assert!(workout_has_routine(&workout("1", "R1", "")));
    assert!(!workout_has_routine(&workout("1", "", "")));
    assert!(!workout_has_routine(&workout("1", "null", "")));
    assert!(workout_has_routine(&workout("1", "nullx", "")));
}

#[test]
fn only_end_states_record_the_event() {
    assert_eq!(advance_event(EventStage::FetchingWorkout, false, true), EventStage::Finished { processed: false });
    assert_eq!(advance_event(EventStage::FetchingWorkout, true, false), EventStage::Finished { processed: true });
    assert_eq!(advance_event(EventStage::FetchingWorkout, true, true), EventStage::FetchingRoutine);
    assert_eq!(advance_event(EventStage::FetchingRoutine, false, true), EventStage::Finished { processed: false });
    assert_eq!(advance_event(EventStage::Generating, false, true), EventStage::Finished { processed: false });
    assert_eq!(advance_event(EventStage::Generating, true, true), EventStage::WritingBack);
    assert_eq!(advance_event(EventStage::WritingBack, false, true), EventStage::Finished { processed: true });
}

#[test]
fn routine_update_takes_suggested_notes() {
    let routine = RoutineResponse {
        id: "R1".to_string(),
        title: "Upper".to_string(),
        folder_id: Some("F".to_string()),
        updated_at: String::new(),
        created_at: String::new(),
        exercises: vec![
            exercise("A", Some("old"), vec![set("normal", Some(600), Some(5))]),
            exercise("B", Some("keep"), vec![set("normal", Some(700), Some(5))]),
        ],
    };
    let r = response(vec![exercise("A", None, vec![set("normal", Some(625), Some(5))])]);
    let s = build_exercise_suggestions(&r);
    let update = build_routine_update(&routine, &r, &s);
    assert_eq!(update.title.as_deref(), Some("Day 1 - Week 3"));
    assert!(update.notes.is_none());
    assert!(update.folder_id.is_none());
    let es = update.exercises.unwrap();
    assert_eq!(es.len(), 2);
    assert_eq!(es[0].notes.as_deref(), Some("1 sets\n62.5x5"));
    assert_eq!(es[1].notes.as_deref(), Some("keep"));
    assert_eq!(es[1].exercise_template_id, "B");
    assert_eq!(es[1].sets[0].weight_kg, Some(Quantity { raw: 7, tenths: 700 }));
    assert!(es[1].sets[0].rep_range.is_none());
}

#[test]
fn update_format_drops_rpe_only() {
    let e = exercise("A", Some("n"), vec![set("normal", Some(600), Some(5))]);
    let u = e.to_update_format();
    assert_eq!(u.exercise_template_id, "A");
    assert_eq!(u.notes.as_deref(), Some("n"));
    assert_eq!(u.rest_seconds, Some(90));
    assert_eq!(u.sets[0].set_type, "normal");
    assert_eq!(u.sets[0].reps, Some(5));
}

#[test]
fn reconciliation_window_is_one_day() {
    let now = (1_700_000_000i64, 500u32);
    assert!(is_recent(Some((1_700_000_000 - 86_399, 0)), now));
    assert!(is_recent(Some((1_700_000_000 - 86_400, 501)), now));
    assert!(!is_recent(Some((1_700_000_000 - 86_400, 500)), now));
    assert!(!is_recent(Some((1_600_000_000, 0)), now));
    assert!(!is_recent(None, now));
}

#[test]
fn reconciliation_skips_old_unreadable_and_processed() {
    let now = (1_714_600_000i64, 0u32); // 2024-05-01T21:46:40Z
    let page = vec![
        workout("fresh", "R1", "2024-05-01T20:00:00Z"),
        workout("old", "R1", "2024-04-20T20:00:00Z"),
        workout("bad", "R1", "yesterday"),
        workout("done", "R1", "2024-05-01T19:00:00+02:00"),
        workout("offset", "R1", "2024-05-01T23:30:00+02:00"),
    ];
    let mut processed = ProcessedWorkouts::new();
    processed.mark_processed("done".to_string());
    let ids = select_for_sync(&page, now, &processed);
    assert_eq!(ids, vec!["fresh".to_string(), "offset".to_string()]);
    processed.mark_processed("fresh".to_string());
    let again = select_for_sync(&page, now, &processed);
    assert_eq!(again, vec!["offset".to_string()]);
}
