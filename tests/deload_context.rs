use hevy_overload::deload::{
    DeloadCalculator, DeloadContextBuilder, ReferenceSearch, SearchPhase, SearchStep, MAX_PAGES,
    PAGE_SIZE,
};
use hevy_overload::models::{WorkoutResponse, WorkoutsListResponse};
use hevy_overload::prompt::format_workout_for_prompt;

fn workout(id: &str, title: &str, routine_id: &str) -> WorkoutResponse {
    WorkoutResponse {
        id: id.to_string(),
        title: title.to_string(),
        routine_id: routine_id.to_string(),
        description: String::new(),
        start_time: "2024-01-01T10:00:00Z".to_string(),
        end_time: "2024-01-01T11:00:00Z".to_string(),
        updated_at: "2024-01-01T11:00:00Z".to_string(),
        created_at: "2024-01-01T11:00:00Z".to_string(),
        exercises: Vec::new(),
    }
}

fn page(workouts: Vec<WorkoutResponse>, page: i32, total_count: i32) -> WorkoutsListResponse {
    WorkoutsListResponse { workouts, page, page_size: PAGE_SIZE, total_count }
}

#[test]
fn test_generate_deload_instruction_with_reference() {
    let calculator = DeloadCalculator::default();
    let instruction = calculator.generate_deload_instruction(true);

    assert!(instruction.contains(" CYCLE TRANSITION"));
    assert!(instruction.contains("60% intensity"));
    assert!(instruction.contains("reference workout provided"));
}

#[test]
fn test_generate_deload_instruction_without_reference() {
    let calculator = DeloadCalculator::default();
    let instruction = calculator.generate_deload_instruction(false);

    assert!(instruction.contains(" CYCLE TRANSITION"));
    assert!(instruction.contains("60% intensity"));
    assert!(instruction.contains("current weights"));
}

#[test]
fn test_extract_day_from_title() {
    let calculator = DeloadCalculator::default();

    assert_eq!(calculator.extract_day_from_title("Day 1 - Week 3"), Some(1));
    assert_eq!(calculator.extract_day_from_title("Week 5 - Day 2"), Some(2));
    assert_eq!(
        calculator.extract_day_from_title("Upper Body Day 3"),
        Some(3)
    );
    assert_eq!(calculator.extract_day_from_title("Push Day"), None);
}

#[test]
fn before_week_eight_there_is_no_transition() {
    let builder = DeloadContextBuilder::new(DeloadCalculator::default());
    let reference = workout("w0", "Day 1 - Week 1", "R1");
    for week in 1u32..8 {
        let context = builder.create_deload_transition_context(week, Some(&reference));
        assert_eq!(context.next_week_index, week + 1);
        assert_eq!(context.cycle_instruction, "");
        assert_eq!(context.reference_data, "");
    }
    let (_, step) = ReferenceSearch::start(7, &workout("w1", "Day 1 - Week 7", "R1"));
    assert_eq!(step, SearchStep::NotFound);
}

#[test]
fn week_one_reference_is_embedded() {
    let builder = DeloadContextBuilder::new(DeloadCalculator::default());
    let reference = workout("w0", "Day 2 - Week 1", "R1");
    let context = builder.create_deload_transition_context(8, Some(&reference));
    assert_eq!(context.next_week_index, 1);
    assert_eq!(
        context.cycle_instruction,
        format!("\n\n{}", DeloadCalculator::default().generate_deload_instruction(true))
    );
    assert_eq!(
        context.reference_data,
        format!(
            "\n\nWEEK 1 REFERENCE WORKOUT (for deload calculation):\n{}",
            format_workout_for_prompt(&reference)
        )
    );
}

#[test]
fn week_seven_reference_is_labelled_as_baseline() {
    let builder = DeloadContextBuilder::new(DeloadCalculator::default());
    let reference = workout("w0", "Day 2 - Week 7", "R1");
    let context = builder.create_deload_transition_context(9, Some(&reference));
    assert!(context
        .reference_data
        .starts_with("\n\nWEEK 7 REFERENCE WORKOUT (max effort baseline) (for deload calculation):\n"));
}

#[test]
fn without_reference_the_cut_is_flat() {
    let builder = DeloadContextBuilder::new(DeloadCalculator::default());
    let context = builder.create_deload_transition_context(8, None);
    assert_eq!(context.next_week_index, 1);
    assert!(context.cycle_instruction.contains("reduction from current weights"));
    assert_eq!(context.reference_data, "");
}

#[test]
fn search_prefers_same_day_week_one() {
    let current = workout("w9", "Day 2 - Week 8", "R1");
    let (mut search, step) = ReferenceSearch::start(8, &current);
    assert_eq!(search.phase, SearchPhase::SameDayWeekOne { day: 2 });
    assert_eq!(step, SearchStep::Fetch { page: 0, page_size: PAGE_SIZE });
    let first = page(
        vec![
            workout("a", "Day 2 - Week 7", "R1"),
            workout("b", "Day 1 - Week 1", "R1"),
            workout("c", "Day 2 - Week 1", "R2"),
        ],
        0,
        30,
    );
    assert_eq!(search.on_page(&first), SearchStep::Found { index: 2 });
}

#[test]
fn search_falls_back_to_week_seven_of_the_routine() {
    let current = workout("w9", "Day 2 - Week 8", "R1");
    let (mut search, _) = ReferenceSearch::start(8, &current);
    let only = page(
        vec![workout("a", "Day 2 - Week 7", "R2"), workout("b", "Day 3 - Week 7", "R1")],
        0,
        2,
    );
    assert_eq!(search.on_page(&only), SearchStep::Fetch { page: 0, page_size: PAGE_SIZE });
    assert_eq!(search.phase, SearchPhase::SameRoutineWeekSeven);
    assert_eq!(search.on_page(&only), SearchStep::Found { index: 1 });
}

#[test]
fn search_without_day_goes_straight_to_week_seven() {
    let current = workout("w9", "Week 8", "R1");
    let (search, step) = ReferenceSearch::start(8, &current);
    assert_eq!(search.phase, SearchPhase::SameRoutineWeekSeven);
    assert_eq!(step, SearchStep::Fetch { page: 0, page_size: PAGE_SIZE });
}

#[test]
fn search_is_capped_and_survives_fetch_errors() {
    let current = workout("w9", "Day 1 - Week 8", "R1");
    let (mut search, mut step) = ReferenceSearch::start(8, &current);
    let mut fetches = 0;
    while let SearchStep::Fetch { .. } = step {
        fetches += 1;
        step = search.on_fetch_error();
    }
    assert_eq!(step, SearchStep::NotFound);
    assert_eq!(fetches, 2 * MAX_PAGES);
}

#[test]
fn search_stops_where_the_history_ends() {
    let current = workout("w9", "Day 1 - Week 8", "R1");
    let (mut search, _) = ReferenceSearch::start(8, &current);
    let full = page(vec![workout("a", "Push", "R1")], 0, 25);
    assert_eq!(search.on_page(&full), SearchStep::Fetch { page: 1, page_size: PAGE_SIZE });
    let last = page(vec![workout("b", "Pull", "R1")], 1, 20);
    assert_eq!(search.on_page(&last), SearchStep::Fetch { page: 0, page_size: PAGE_SIZE });
    assert_eq!(search.phase, SearchPhase::SameRoutineWeekSeven);
    assert_eq!(search.on_page(&last), SearchStep::Fetch { page: 1, page_size: PAGE_SIZE });
    assert_eq!(search.on_page(&last), SearchStep::NotFound);
}
