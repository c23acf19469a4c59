use tasklist::manager::{load_tasks, save_tasks, TaskManager};
use tasklist::record::Row;
use tasklist::task::Task;
use tasklist::timestamp::Timestamp;

fn at(secs: i64) -> Timestamp {
    Timestamp::from_parts(secs, 0).unwrap()
}

fn row(id: usize, description: &str, done: bool) -> Row {
    Row {
        id,
        description: description.to_string(),
        done,
        created_at: "2023-11-14T22:13:20+00:00".to_string(),
        updated_at: "2023-11-14T22:13:21+00:00".to_string(),
    }
}

#[test]
fn new_collection_is_empty() {
    let m = TaskManager::new();
    assert_eq!(m.len(), 0);
    assert!(m.get_all_tasks().is_empty());
    assert_eq!(m.last_id(), 0);
    assert_eq!(m.next_free_id(), Some(1));
}

#[test]
fn new_task_is_open_and_without_id() {
    let t = Task::new("water plants".to_string());
    assert_eq!(t.id, None);
    assert_eq!(t.description, "water plants");
    assert!(!t.done);
    assert_eq!(t.created_at, t.updated_at);
}

#[test]
fn new_task_at_holds_the_instant() {
    let t = Task::new_at("".to_string(), at(1_700_000_000));
    assert_eq!(t.id, None);
    assert_eq!(t.description, "");
    assert!(!t.done);
    assert_eq!(t.created_at.secs(), 1_700_000_000);
    assert_eq!(t.updated_at.secs(), 1_700_000_000);
    assert_eq!(t.duplicate(), t);
}

#[test]
fn added_ids_count_up_from_one() {
    let mut m = TaskManager::new();
    for expected in 1..=5usize {
        let id = m.add_task_at(format!("task {}", expected), at(10));
        assert_eq!(id, expected);
    }
    let ids: Vec<Option<usize>> = m.get_all_tasks().iter().map(|t| t.id).collect();
    assert_eq!(ids, vec![Some(1), Some(2), Some(3), Some(4), Some(5)]);
}

#[test]
fn add_with_the_clock_appends_an_open_task() {
    let mut m = TaskManager::new();
    let id = m.add_task("buy milk".to_string());
    assert_eq!(id, 1);
    let all = m.get_all_tasks();
    assert_eq!(all.len(), 1);
    assert_eq!(all[0].id, Some(1));
    assert_eq!(all[0].description, "buy milk");
    assert!(!all[0].done);
    assert_eq!(all[0].created_at, all[0].updated_at);
}

#[test]
fn add_takes_the_description_verbatim() {
    let mut m = TaskManager::new();
    m.add_task_at("".to_string(), at(1));
    m.add_task_at("  two  spaces ".to_string(), at(2));
    let all = m.get_all_tasks();
    assert_eq!(all[0].description, "");
    assert_eq!(all[1].description, "  two  spaces ");
}

#[test]
fn a_removed_id_is_not_given_out_again() {
    let mut m = TaskManager::new();
    assert_eq!(m.add_task_at("a".to_string(), at(1)), 1);
    assert_eq!(m.add_task_at("b".to_string(), at(1)), 2);
    assert!(m.remove_task(2));
    assert_eq!(m.last_id(), 2);
    assert_eq!(m.add_task_at("c".to_string(), at(1)), 3);
    let ids: Vec<Option<usize>> = m.get_all_tasks().iter().map(|t| t.id).collect();
    assert_eq!(ids, vec![Some(1), Some(3)]);
    assert!(m.remove_task(3));
    assert!(m.remove_task(1));
    assert_eq!(m.len(), 0);
    assert_eq!(m.next_free_id(), Some(4));
    assert_eq!(m.add_task("d".to_string()), 4);
}

#[test]
fn add_remove_add_moves_on() {
    let mut m = TaskManager::new();
    let first = m.add_task_at("a".to_string(), at(1));
    assert!(m.remove_task(first));
    let second = m.add_task_at("a".to_string(), at(1));
    assert_eq!(first, 1);
    assert_eq!(second, 2);
    assert!(!m.complete_task_at(first, at(2)));
    assert_eq!(m.last_id(), 2);
}

#[test]
fn complete_and_remove_leave_the_greatest_id() {
    let mut m = TaskManager::new();
    m.add_task_at("a".to_string(), at(1));
    m.add_task_at("b".to_string(), at(1));
    assert!(m.complete_task_at(1, at(2)));
    assert_eq!(m.last_id(), 2);
    assert!(!m.remove_task(9));
    assert_eq!(m.last_id(), 2);
    assert!(m.remove_task(1));
    assert_eq!(m.last_id(), 2);
}

#[test]
fn next_free_id_is_none_at_the_machine_limit() {
    let records = vec![Some(row(usize::MAX, "last", false))];
    let (m, skipped) = load_tasks(&records, 0);
    assert_eq!(skipped, 0);
    assert_eq!(m.len(), 1);
    assert_eq!(m.last_id(), usize::MAX);
    assert_eq!(m.next_free_id(), None);
    let (n, _) = load_tasks(&Vec::new(), usize::MAX);
    assert_eq!(n.next_free_id(), None);
}

#[test]
fn load_takes_the_recorded_greatest_id() {
    let records = vec![Some(row(1, "a", false)), Some(row(2, "b", false))];
    let (mut m, _) = load_tasks(&records, 7);
    assert_eq!(m.last_id(), 7);
    assert_eq!(m.add_task_at("c".to_string(), at(1)), 8);
    let (n, _) = load_tasks(&vec![Some(row(5, "e", false))], 2);
    assert_eq!(n.last_id(), 5);
    assert_eq!(n.next_free_id(), Some(6));
    let (e, _) = load_tasks(&Vec::new(), 3);
    assert_eq!(e.len(), 0);
    assert_eq!(e.next_free_id(), Some(4));
}

#[test]
fn list_shows_one_line_for_an_added_task() {
    let mut m = TaskManager::new();
    let id = m.add_task_at("buy milk".to_string(), at(1_700_000_000));
    assert_eq!(id, 1);
    let lines = m.list_tasks();
    assert_eq!(
        lines,
        vec![
            "[ ] 1 - buy milk (Created: 2023-11-14 22:13:20, Updated: 2023-11-14 22:13:20)"
                .to_string()
        ]
    );
}

#[test]
fn list_of_nothing_is_the_notice() {
    let m = TaskManager::new();
    assert_eq!(m.list_tasks(), vec!["No tasks in the to-do list.".to_string()]);
}

#[test]
fn list_marks_done_tasks_and_keeps_order() {
    let mut m = TaskManager::new();
    m.add_task_at("first".to_string(), at(0));
    m.add_task_at("second".to_string(), at(60));
    assert!(m.complete_task_at(2, at(86_400)));
    assert_eq!(
        m.list_tasks(),
        vec![
            "[ ] 1 - first (Created: 1970-01-01 00:00:00, Updated: 1970-01-01 00:00:00)"
                .to_string(),
            "[x] 2 - second (Created: 1970-01-01 00:01:00, Updated: 1970-01-02 00:00:00)"
                .to_string(),
        ]
    );
}

#[test]
fn complete_of_an_absent_id_changes_nothing() {
    let mut m = TaskManager::new();
    m.add_task_at("a".to_string(), at(5));
    let before = m.get_all_tasks();
    assert!(!m.complete_task_at(7, at(9)));
    assert_eq!(m.get_all_tasks(), before);
    assert!(!m.complete_task(0));
    assert_eq!(m.get_all_tasks(), before);
}

#[test]
fn complete_marks_the_task_and_moves_its_update_time() {
    let mut m = TaskManager::new();
    m.add_task_at("a".to_string(), at(5));
    m.add_task_at("b".to_string(), at(6));
    assert!(m.complete_task_at(1, at(9)));
    let all = m.get_all_tasks();
    assert!(all[0].done);
    assert_eq!(all[0].created_at, at(5));
    assert_eq!(all[0].updated_at, at(9));
    assert!(at(5).is_at_or_before(&all[0].updated_at));
    assert_eq!(all[0].description, "a");
    assert!(!all[1].done);
    assert_eq!(all[1].updated_at, at(6));
}

#[test]
fn complete_with_the_clock_does_not_go_back() {
    let mut m = TaskManager::new();
    m.add_task_at("a".to_string(), at(5));
    assert!(m.complete_task(1));
    let all = m.get_all_tasks();
    assert!(all[0].done);
    assert!(at(5).is_at_or_before(&all[0].updated_at));
    assert_eq!(all[0].created_at, at(5));
}

#[test]
fn complete_twice_stays_done() {
    let mut m = TaskManager::new();
    m.add_task_at("a".to_string(), at(5));
    assert!(m.complete_task_at(1, at(6)));
    assert!(m.complete_task_at(1, at(7)));
    let all = m.get_all_tasks();
    assert!(all[0].done);
    assert_eq!(all[0].updated_at, at(7));
}

#[test]
fn remove_takes_out_exactly_one_task() {
    let mut m = TaskManager::new();
    m.add_task_at("a".to_string(), at(1));
    m.add_task_at("b".to_string(), at(2));
    m.add_task_at("c".to_string(), at(3));
    let before = m.get_all_tasks();
    assert!(m.remove_task(2));
    let after = m.get_all_tasks();
    assert_eq!(after, vec![before[0].clone(), before[2].clone()]);
    assert!(!m.remove_task(2));
    assert_eq!(m.get_all_tasks(), after);
}

#[test]
fn remove_of_an_absent_id_changes_nothing() {
    let mut m = TaskManager::new();
    assert!(!m.remove_task(1));
    m.add_task_at("a".to_string(), at(1));
    let before = m.get_all_tasks();
    assert!(!m.remove_task(9));
    assert_eq!(m.get_all_tasks(), before);
}

#[test]
fn save_gives_one_row_for_each_task() {
    let mut m = TaskManager::new();
    m.add_task_at("a".to_string(), at(1_700_000_000));
    m.add_task_at("b".to_string(), at(1_700_000_001));
    m.complete_task_at(2, at(1_700_000_002));
    let rows = save_tasks(&m);
    assert_eq!(
        rows,
        vec![
            Row {
                id: 1,
                description: "a".to_string(),
                done: false,
                created_at: "2023-11-14T22:13:20+00:00".to_string(),
                updated_at: "2023-11-14T22:13:20+00:00".to_string(),
            },
            Row {
                id: 2,
                description: "b".to_string(),
                done: true,
                created_at: "2023-11-14T22:13:21+00:00".to_string(),
                updated_at: "2023-11-14T22:13:22+00:00".to_string(),
            },
        ]
    );
}

#[test]
fn save_then_load_gives_the_collection_back() {
    let mut m = TaskManager::new();
    m.add_task_at("Buy milk".to_string(), Timestamp::from_parts(1_700_000_000, 123_456_789).unwrap());
    m.add_task_at("".to_string(), at(1_700_000_001));
    m.add_task_at("Write report".to_string(), at(1_700_000_002));
    m.complete_task_at(3, at(1_700_000_500));
    m.remove_task(2);
    let records: Vec<Option<Row>> = save_tasks(&m).into_iter().map(Some).collect();
    let (back, skipped) = load_tasks(&records, m.last_id());
    assert_eq!(skipped, 0);
    assert_eq!(back.get_all_tasks(), m.get_all_tasks());
    assert_eq!(back.last_id(), 3);
}

#[test]
fn load_passes_over_a_record_that_cannot_be_read() {
    let records = vec![
        Some(row(1, "a", false)),
        None,
        Some(row(2, "b", true)),
        Some(row(5, "c", false)),
    ];
    let (m, skipped) = load_tasks(&records, 0);
    assert_eq!(skipped, 1);
    let all = m.get_all_tasks();
    assert_eq!(all.len(), 3);
    assert_eq!(all[0].id, Some(1));
    assert_eq!(all[1].id, Some(2));
    assert!(all[1].done);
    assert_eq!(all[2].id, Some(5));
    assert_eq!(all[2].description, "c");
    assert_eq!(all[0].created_at, at(1_700_000_000));
    assert_eq!(all[0].updated_at, at(1_700_000_001));
}

#[test]
fn load_passes_over_a_row_that_breaks_the_order() {
    let records = vec![Some(row(3, "a", false)), Some(row(3, "again", false)), Some(row(2, "b", false))];
    let (m, skipped) = load_tasks(&records, 0);
    assert_eq!(skipped, 2);
    let all = m.get_all_tasks();
    assert_eq!(all.len(), 1);
    assert_eq!(all[0].description, "a");
}

#[test]
fn load_passes_over_a_row_with_an_unreadable_timestamp() {
    let mut bad_created = row(2, "b", false);
    bad_created.created_at = "yesterday".to_string();
    let mut bad_updated = row(4, "d", false);
    bad_updated.updated_at = "".to_string();
    let records = vec![
        Some(row(1, "a", false)),
        Some(bad_created),
        Some(row(3, "c", true)),
        Some(bad_updated),
    ];
    let (m, skipped) = load_tasks(&records, 4);
    assert_eq!(skipped, 2);
    let all = m.get_all_tasks();
    assert_eq!(all.len(), 2);
    assert_eq!(all[0].id, Some(1));
    assert_eq!(all[1].id, Some(3));
    assert_eq!(m.last_id(), 4);
}

#[test]
fn one_malformed_record_among_good_ones() {
    for place in 0..=3usize {
        let mut bad = row(9, "bad", false);
        bad.created_at = "2023-11-14 22:13:20".to_string();
        let mut records =
            vec![Some(row(1, "a", false)), Some(row(2, "b", true)), Some(row(3, "c", false))];
        records.insert(place, Some(bad));
        let (m, skipped) = load_tasks(&records, 3);
        assert_eq!(skipped, 1);
        let all = m.get_all_tasks();
        assert_eq!(all.len(), 3);
        assert_eq!(all[0], Task::from_row(&row(1, "a", false)).unwrap());
        assert_eq!(all[1], Task::from_row(&row(2, "b", true)).unwrap());
        assert_eq!(all[2], Task::from_row(&row(3, "c", false)).unwrap());
    }
}

#[test]
fn load_of_nothing_is_empty() {
    let (m, skipped) = load_tasks(&Vec::new(), 0);
    assert_eq!(skipped, 0);
    assert_eq!(m.len(), 0);
    assert_eq!(m.last_id(), 0);
}

#[test]
fn from_row_reads_both_timestamps() {
    let t = Task::from_row(&row(4, "d", true)).unwrap();
    assert_eq!(t.id, Some(4));
    assert_eq!(t.description, "d");
    assert!(t.done);
    assert_eq!(t.created_at, at(1_700_000_000));
    assert_eq!(t.updated_at, at(1_700_000_001));
    let mut bad = row(4, "d", true);
    bad.updated_at = "soon".to_string();
    assert_eq!(Task::from_row(&bad), None);
}

#[test]
fn task_without_id_has_no_row() {
    let t = Task::new_at("a".to_string(), at(0));
    assert_eq!(t.to_row(), None);
    let mut u = t.clone();
    u.id = Some(3);
    let r = u.to_row().unwrap();
    assert_eq!(r.id, 3);
    assert_eq!(r.created_at, "1970-01-01T00:00:00+00:00");
}
