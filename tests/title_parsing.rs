use hevy_overload::overload::ProgressiveOverloadService;
use hevy_overload::title::{
    determine_routine_title_format, extract_day_number, extract_week_and_day,
    extract_week_from_title, next_week_index,
};

#[test]
fn test_extract_week_number() {
    let service = ProgressiveOverloadService::new();

    assert_eq!(service.extract_week_number("Week 1 - Day 1: Push"), 1);
    assert_eq!(service.extract_week_number("week 5 - chest day"), 5);
    assert_eq!(service.extract_week_number("Push Day"), 1);
}

#[test]
fn test_extract_week_and_day() {
    let service = ProgressiveOverloadService::new();

    assert_eq!(service.extract_week_and_day("Day 1 - Week 2"), (2, 1));
    assert_eq!(service.extract_week_and_day("Day 3 - Week 5"), (5, 3));
    assert_eq!(service.extract_week_and_day("Week 4 - Day 2"), (4, 2));
    assert_eq!(service.extract_week_and_day("Push Day"), (1, 1));
    assert_eq!(service.extract_week_and_day("Day 1"), (1, 1));
    assert_eq!(service.extract_week_and_day("Day4 -week 2"), (2, 4));
}

#[test]
fn test_determine_routine_title_format() {
    let service = ProgressiveOverloadService::new();

    assert_eq!(
        service.determine_routine_title_format("Day 1 - Week 2"),
        "Day 1 - Week 3"
    );
    assert_eq!(
        service.determine_routine_title_format("Day4 -week 2"),
        "Day 4 - Week 3"
    );
    assert_eq!(service.determine_routine_title_format("Day 1"), "Day 2");
    assert_eq!(service.determine_routine_title_format("Week 2"), "Week 3");
    assert_eq!(service.determine_routine_title_format("Push Day"), "Week 2");
    assert_eq!(
        service.determine_routine_title_format("Chest Press"),
        "Week 2"
    );
}

#[test]
fn test_week_8_boundary_condition() {
    let service = ProgressiveOverloadService::new();

    assert_eq!(
        service.determine_routine_title_format("Day 1 - Week 8"),
        "Day 1 - Week 1"
    );
    assert_eq!(service.determine_routine_title_format("Week 8"), "Week 1");
    assert_eq!(
        service.determine_routine_title_format("Day 2 - Week 9"),
        "Day 2 - Week 1"
    );
    assert_eq!(service.determine_routine_title_format("Week 10"), "Week 1");
    assert_eq!(
        service.determine_routine_title_format("Day 1 - Week 7"),
        "Day 1 - Week 8"
    );
    assert_eq!(service.determine_routine_title_format("Week 7"), "Week 8");
}

#[test]
fn test_extract_week_from_title() {
    let service = ProgressiveOverloadService::new();

    assert_eq!(service.extract_week_from_title("Week 1 - Day 1"), Some(1));
    assert_eq!(service.extract_week_from_title("Day 2 - Week 3"), Some(3));
    assert_eq!(service.extract_week_from_title("Push Day"), None);
    assert_eq!(service.extract_week_from_title("Week 8 - Upper"), Some(8));
}

#[test]
fn tokens_ignore_case_and_spacing() {
    assert_eq!(extract_week_and_day("WEEK\t7 dAy   3"), (7, 3));
    assert_eq!(extract_week_and_day("wEeK12/DAY09"), (12, 9));
    assert_eq!(extract_week_and_day("week\u{a0}4"), (4, 1));
}

#[test]
fn the_leftmost_token_counts() {
    assert_eq!(extract_week_from_title("Week 3 then Week 5"), Some(3));
    assert_eq!(extract_week_from_title("weekly week 6"), Some(6));
    assert_eq!(extract_day_number("Today day 2"), Some(2));
}

#[test]
fn a_number_too_large_reads_as_absent() {
    assert_eq!(extract_week_from_title("Week 4294967295"), Some(4294967295));
    assert_eq!(extract_week_from_title("Week 4294967296"), None);
    assert_eq!(extract_week_and_day("Week 99999999999 Day 2"), (1, 2));
    assert_eq!(extract_week_from_title(""), None);
}

#[test]
fn day_only_titles_advance_the_day() {
    assert_eq!(determine_routine_title_format("Leg Day 3"), "Day 4");
    assert_eq!(determine_routine_title_format("Day 4294967295"), "Day 4294967296");
    assert_eq!(determine_routine_title_format("Week 99999999999"), "Week 2");
}

#[test]
fn next_week_wraps_after_eight() {
    assert_eq!(next_week_index(1), 2);
    assert_eq!(next_week_index(7), 8);
    assert_eq!(next_week_index(8), 1);
    assert_eq!(next_week_index(12), 1);
}

#[test]
fn rendered_titles_parse_back() {
    for week in 1u32..=8 {
        for day in 1u32..=4 {
            let title = format!("Day {} - Week {}", day, week);
            let next = determine_routine_title_format(&title);
            assert_eq!(extract_week_and_day(&next), (next_week_index(week), day));
        }
    }
}
