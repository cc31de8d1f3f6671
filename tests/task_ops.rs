use task_cli::calendar::{parse_date, Date, Timestamp};
use task_cli::commands::{
    add_task, complete_task, delete_task, edit_task, list_tasks, show_stats, Completion,
};
use task_cli::query::{search_tasks, sort_tasks, SortBy};
use task_cli::{Priority, Storage, Task, TaskError};

fn day(year: i32, month: u32, day: u32) -> Date {
    Date { year, month, day }
}

fn task_at(id: u32, title: &str, priority: Priority, secs: i64) -> Task {
    Task {
        id,
        title: title.to_string(),
        description: None,
        priority,
        tags: Vec::new(),
        completed: false,
        created_at: Timestamp { secs, nanos: 0 },
        completed_at: None,
        due_date: None,
    }
}

fn titles(tasks: &[Task]) -> Vec<String> {
    tasks.iter().map(|t| t.title.clone()).collect()
}

#[test]
fn priority_parsing_ignores_case() {
    assert_eq!(Priority::from_str("low"), Some(Priority::Low));
    assert_eq!(Priority::from_str("Medium"), Some(Priority::Medium));
    assert_eq!(Priority::from_str("HIGH"), Some(Priority::High));
    assert_eq!(Priority::from_str("hIgH"), Some(Priority::High));
    assert_eq!(Priority::from_str("urgent"), None);
    assert_eq!(Priority::from_str(""), None);
    assert_eq!(Priority::from_str("high "), None);
}

#[test]
fn priority_values_rank_high_over_low() {
    assert_eq!(Priority::Low.priority_value(), 1);
    assert_eq!(Priority::Medium.priority_value(), 2);
    assert_eq!(Priority::High.priority_value(), 3);
    assert!(Priority::High.priority_value() > Priority::Medium.priority_value());
    assert!(Priority::Medium.priority_value() > Priority::Low.priority_value());
    assert_eq!(Priority::Low.as_str(), "low");
    assert_eq!(Priority::Medium.as_str(), "medium");
    assert_eq!(Priority::High.as_str(), "high");
}

#[test]
fn due_dates_parse_in_fixed_format_only() {
    assert_eq!(parse_date("2024-01-01"), Some(day(2024, 1, 1)));
    assert_eq!(parse_date("2024-02-29"), Some(day(2024, 2, 29)));
    assert_eq!(parse_date("2023-02-29"), None);
    assert_eq!(parse_date("2023-13-01"), None);
    assert_eq!(parse_date("2023-00-10"), None);
    assert_eq!(parse_date("2024-1-1"), None);
    assert_eq!(parse_date("2024/01/01"), None);
    assert_eq!(parse_date("abcd-ef-gh"), None);
    assert_eq!(parse_date(""), None);
}

#[test]
fn next_id_follows_the_largest() {
    assert_eq!(Storage::get_next_id(&Vec::new()), Some(1));
    let tasks = vec![
        task_at(1, "a", Priority::Low, 1),
        task_at(5, "b", Priority::Low, 2),
        task_at(3, "c", Priority::Low, 3),
    ];
    assert_eq!(Storage::get_next_id(&tasks), Some(6));
    let full = vec![task_at(u32::MAX, "z", Priority::Low, 1)];
    assert_eq!(Storage::get_next_id(&full), None);
}

#[test]
fn add_with_defaults() {
    let mut tasks = Vec::new();
    let id = add_task(&mut tasks, "Buy milk".to_string(), None, None, Vec::new(), None);
    assert_eq!(id, Ok(1));
    assert_eq!(tasks.len(), 1);
    let t = &tasks[0];
    assert_eq!(t.id, 1);
    assert_eq!(t.title, "Buy milk");
    assert_eq!(t.priority, Priority::Medium);
    assert!(t.tags.is_empty());
    assert_eq!(t.due_date, None);
    assert_eq!(t.description, None);
    assert!(!t.completed);
    assert_eq!(t.completed_at, None);
}

#[test]
fn add_rejects_bad_priority_and_date() {
    let mut tasks = vec![task_at(1, "a", Priority::Low, 1)];
    let r = add_task(&mut tasks, "x".to_string(), None, Some("urgent".to_string()), Vec::new(), None);
    assert_eq!(r, Err(TaskError::InvalidPriority));
    assert_eq!(tasks.len(), 1);
    let r = add_task(
        &mut tasks,
        "x".to_string(),
        None,
        Some("low".to_string()),
        Vec::new(),
        Some("01-01-2024".to_string()),
    );
    assert_eq!(r, Err(TaskError::InvalidDate));
    assert_eq!(tasks.len(), 1);
    assert_eq!(tasks[0].title, "a");
}

#[test]
fn add_after_gaps_uses_next_id() {
    let mut tasks = vec![
        task_at(1, "a", Priority::Low, 1),
        task_at(3, "b", Priority::Low, 2),
        task_at(5, "c", Priority::Low, 3),
    ];
    let r = add_task(&mut tasks, "d".to_string(), None, None, Vec::new(), None);
    assert_eq!(r, Ok(6));
    assert_eq!(tasks[3].id, 6);
}

#[test]
fn delete_missing_id_changes_nothing() {
    let mut tasks = vec![task_at(1, "a", Priority::Low, 1), task_at(2, "b", Priority::High, 2)];
    assert_eq!(delete_task(&mut tasks, 7), Err(TaskError::NotFound(7)));
    assert_eq!(titles(&tasks), vec!["a", "b"]);
    assert_eq!(delete_task(&mut tasks, 1), Ok(()));
    assert_eq!(titles(&tasks), vec!["b"]);
}

#[test]
fn completing_twice_keeps_first_completion_time() {
    let mut tasks = vec![task_at(1, "a", Priority::Low, 1)];
    assert_eq!(complete_task(&mut tasks, 1), Ok(Completion::Completed));
    assert!(tasks[0].completed);
    let first = tasks[0].completed_at;
    assert!(first.is_some());
    assert_eq!(complete_task(&mut tasks, 1), Ok(Completion::AlreadyCompleted));
    assert_eq!(tasks[0].completed_at, first);
    assert_eq!(complete_task(&mut tasks, 9), Err(TaskError::NotFound(9)));
}

#[test]
fn reopening_clears_completion() {
    let mut t = task_at(1, "a", Priority::Low, 1);
    t.complete();
    assert!(t.completed && t.completed_at.is_some());
    t.uncomplete();
    assert!(!t.completed);
    assert_eq!(t.completed_at, None);
}

#[test]
fn filter_by_priority_keeps_exactly_high() {
    let tasks = vec![
        task_at(1, "low", Priority::Low, 1),
        task_at(2, "high one", Priority::High, 2),
        task_at(3, "medium", Priority::Medium, 3),
        task_at(4, "high two", Priority::High, 4),
    ];
    let today = day(2024, 6, 1);
    for sort in ["date", "priority", "due-date"] {
        let r = list_tasks(
            tasks.clone(),
            true,
            Some("priority:HIGH".to_string()),
            Some(sort.to_string()),
            &today,
        )
        .unwrap();
        assert_eq!(titles(&r), vec!["high one", "high two"]);
    }
}

#[test]
fn default_listing_hides_completed() {
    let mut done = task_at(1, "done", Priority::High, 1);
    done.complete();
    let tasks = vec![done, task_at(2, "open", Priority::Low, 2)];
    let today = day(2024, 6, 1);
    let r = list_tasks(tasks.clone(), false, None, None, &today).unwrap();
    assert_eq!(titles(&r), vec!["open"]);
    let r = list_tasks(tasks, true, None, None, &today).unwrap();
    assert_eq!(titles(&r), vec!["done", "open"]);
}

#[test]
fn unknown_sort_option_is_rejected() {
    let tasks = vec![task_at(1, "a", Priority::Low, 1)];
    let r = list_tasks(tasks, true, None, Some("title".to_string()), &day(2024, 1, 1));
    assert_eq!(r.map(|v| v.len()), Err(TaskError::InvalidSortOption));
}

#[test]
fn due_date_sort_puts_undated_last() {
    let mut a = task_at(1, "undated old", Priority::Low, 1);
    a.due_date = None;
    let mut b = task_at(2, "due late", Priority::Low, 2);
    b.due_date = Some(day(2024, 5, 1));
    let c = task_at(3, "undated new", Priority::Low, 3);
    let mut d = task_at(4, "due early", Priority::Low, 4);
    d.due_date = Some(day(2024, 1, 9));
    let r = sort_tasks(vec![c, b, a, d], SortBy::DueDate);
    assert_eq!(titles(&r), vec!["due early", "due late", "undated old", "undated new"]);
}

#[test]
fn date_and_priority_sorts() {
    let tasks = vec![
        task_at(1, "m2", Priority::Medium, 20),
        task_at(2, "h", Priority::High, 30),
        task_at(3, "m1", Priority::Medium, 10),
        task_at(4, "l", Priority::Low, 5),
    ];
    let r = sort_tasks(tasks.clone(), SortBy::Priority);
    assert_eq!(titles(&r), vec!["h", "m1", "m2", "l"]);
    let r = sort_tasks(tasks, SortBy::Date);
    assert_eq!(titles(&r), vec!["l", "m1", "m2", "h"]);
}

#[test]
fn filters_by_tag_state_and_overdue() {
    let today = day(2024, 3, 10);
    let mut a = task_at(1, "a", Priority::Low, 1);
    a.tags = vec!["Rust".to_string(), "work".to_string()];
    a.due_date = Some(day(2024, 3, 9));
    let mut b = task_at(2, "b", Priority::Low, 2);
    b.due_date = Some(day(2024, 3, 10));
    let mut c = task_at(3, "c", Priority::Low, 3);
    c.due_date = Some(day(2024, 1, 1));
    c.complete();
    assert!(a.matches_filter("tag:rust", &today));
    assert!(!b.matches_filter("tag:rust", &today));
    assert!(a.is_overdue(&today));
    assert!(!b.is_overdue(&today));
    assert!(!c.is_overdue(&today));
    assert!(a.matches_filter("overdue", &today));
    assert!(c.matches_filter("completed", &today));
    assert!(!c.matches_filter("incomplete", &today));
    assert!(b.matches_filter("incomplete", &today));
    assert!(b.matches_filter("anything else", &today));
    assert!(!a.matches_filter("priority:high", &today));
}

#[test]
fn search_ignores_case_and_keeps_order() {
    let mut a = task_at(1, "Write REPORT", Priority::Low, 1);
    a.description = None;
    let mut b = task_at(2, "Call", Priority::Low, 2);
    b.description = Some("about the quarterly report".to_string());
    let c = task_at(3, "Shop", Priority::Low, 3);
    let r = search_tasks(vec![a, b, c], "Report");
    assert_eq!(titles(&r), vec!["Write REPORT", "Call"]);
}

#[test]
fn edit_applies_only_supplied_fields() {
    let mut tasks = vec![task_at(1, "old", Priority::Low, 1)];
    let r = edit_task(
        &mut tasks,
        1,
        Some("new".to_string()),
        None,
        Some("High".to_string()),
        Some(vec!["x".to_string()]),
        Some("2025-12-31".to_string()),
    );
    assert_eq!(r, Ok(()));
    let t = &tasks[0];
    assert_eq!(t.title, "new");
    assert_eq!(t.description, None);
    assert_eq!(t.priority, Priority::High);
    assert_eq!(t.tags, vec!["x".to_string()]);
    assert_eq!(t.due_date, Some(day(2025, 12, 31)));
    let r = edit_task(&mut tasks, 1, Some("z".to_string()), None, Some("bad".to_string()), None, None);
    assert_eq!(r, Err(TaskError::InvalidPriority));
    assert_eq!(tasks[0].title, "new");
    let r = edit_task(&mut tasks, 1, Some("z".to_string()), None, None, None, Some("2025-02-30".to_string()));
    assert_eq!(r, Err(TaskError::InvalidDate));
    assert_eq!(tasks[0].title, "new");
    let r = edit_task(&mut tasks, 4, None, None, None, None, None);
    assert_eq!(r, Err(TaskError::NotFound(4)));
}

#[test]
fn stats_count_each_kind() {
    let today = day(2024, 3, 10);
    let mut a = task_at(1, "a", Priority::High, 1);
    a.due_date = Some(day(2024, 3, 1));
    let mut b = task_at(2, "b", Priority::Low, 2);
    b.complete();
    let c = task_at(3, "c", Priority::Low, 3);
    let s = show_stats(&vec![a, b, c], &today);
    assert_eq!(s.total, 3);
    assert_eq!(s.completed, 1);
    assert_eq!(s.incomplete, 2);
    assert_eq!(s.high, 1);
    assert_eq!(s.medium, 0);
    assert_eq!(s.low, 2);
    assert_eq!(s.overdue, 1);
    let empty = show_stats(&Vec::new(), &today);
    assert_eq!(empty.total, 0);
}

#[test]
fn missing_home_directory_is_an_error() {
    assert!(matches!(Storage::in_home(None), Err(TaskError::HomeDirectoryUnavailable)));
    assert!(Storage::in_home(Some(std::path::PathBuf::from("/home/u"))).is_ok());
}

#[test]
fn buy_milk_and_finish_report() {
    let mut tasks = Vec::new();
    let today = day(2024, 6, 1);
    assert_eq!(add_task(&mut tasks, "Buy milk".to_string(), None, None, Vec::new(), None), Ok(1));
    assert_eq!(tasks[0].priority, Priority::Medium);
    assert!(tasks[0].tags.is_empty());
    assert_eq!(tasks[0].due_date, None);
    let r = add_task(
        &mut tasks,
        "Finish report".to_string(),
        None,
        Some("high".to_string()),
        Vec::new(),
        Some("2024-01-01".to_string()),
    );
    assert_eq!(r, Ok(2));
    let listed = list_tasks(tasks.clone(), false, None, Some("priority".to_string()), &today).unwrap();
    assert_eq!(titles(&listed), vec!["Finish report", "Buy milk"]);
    assert_eq!(complete_task(&mut tasks, 1), Ok(Completion::Completed));
    let listed = list_tasks(tasks.clone(), false, None, None, &today).unwrap();
    assert_eq!(titles(&listed), vec!["Finish report"]);
    let s = show_stats(&tasks, &today);
    assert_eq!(s.total, 2);
    assert_eq!(s.completed, 1);
    let rate = s.completed as f64 / s.total as f64 * 100.0;
    assert_eq!(format!("{:.1}", rate), "50.0");
}

#[test]
fn ties_keep_their_stored_order() {
    let tasks = vec![
        task_at(1, "first", Priority::Medium, 7),
        task_at(2, "urgent", Priority::High, 9),
        task_at(3, "second", Priority::Medium, 7),
        task_at(4, "third", Priority::Medium, 7),
    ];
    let r = sort_tasks(tasks.clone(), SortBy::Priority);
    assert_eq!(titles(&r), vec!["urgent", "first", "second", "third"]);
    let r = sort_tasks(tasks, SortBy::DueDate);
    assert_eq!(titles(&r), vec!["first", "second", "third", "urgent"]);
}
