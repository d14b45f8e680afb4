use std::cell::RefCell;

use task_tracker::cli::{apply_command, restore};
use task_tracker::json_tree::{dump, from_string, from_u32, new_array, new_object, push};
use task_tracker::storage::Storage;
use task_tracker::text::{i64_text, parse_u32, u32_text};
use task_tracker::timestamp::{parse_rfc3339, to_rfc3339};
use task_tracker::{
    Serializable, execute_command, CommandOutcome, FileStorage, IdGenerator, Identifiable, Task, TaskCommand,
    TaskManager, TaskOperation, TaskStatus, Timestamp,
};

fn at(secs: i64) -> Timestamp {
    Timestamp { secs, nanos: 0, offset: 0 }
}

struct MemoryStore {
    blob: RefCell<Option<String>>,
}

impl MemoryStore {
    fn empty() -> Self {
        MemoryStore { blob: RefCell::new(None) }
    }

    fn holding(s: &str) -> Self {
        MemoryStore { blob: RefCell::new(Some(s.to_string())) }
    }

    fn contents(&self) -> Option<String> {
        self.blob.borrow().clone()
    }
}

impl Storage for MemoryStore {
    fn save(&self, data: String) -> Result<(), String> {
        *self.blob.borrow_mut() = Some(data);
        Ok(())
    }

    fn load(&self) -> Result<String, String> {
        self.blob.borrow().clone().ok_or_else(|| "no such blob".to_string())
    }
}

fn command(operation: TaskOperation, task_id: Option<u32>, description: Option<&str>) -> TaskCommand {
    TaskCommand { operation, task_id, description: description.map(|d| d.to_string()) }
}

#[test]
fn status_parses_canonical_spellings_only() {
    assert_eq!(TaskStatus::from_str("ToDo"), Some(TaskStatus::ToDo));
    assert_eq!(TaskStatus::from_str("InProgress"), Some(TaskStatus::InProgress));
    assert_eq!(TaskStatus::from_str("Done"), Some(TaskStatus::Done));
    assert_eq!(TaskStatus::from_str("In Progress"), None);
    assert_eq!(TaskStatus::from_str("done"), None);
    assert_eq!(TaskStatus::from_str(""), None);
}

#[test]
fn status_spellings() {
    for s in [TaskStatus::ToDo, TaskStatus::InProgress, TaskStatus::Done] {
        assert_eq!(TaskStatus::from_str(s.as_canonical_str()), Some(s));
    }
    assert_eq!(TaskStatus::InProgress.as_canonical_str(), "InProgress");
    assert_eq!(TaskStatus::InProgress.to_display_string(), "In Progress");
    assert_eq!(TaskStatus::ToDo.to_display_string(), "ToDo");
}

#[test]
fn id_generator_pre_increments() {
    let mut g = IdGenerator::new(None);
    assert_eq!(g.current(), 0);
    assert_eq!(g.generate(), 1);
    assert_eq!(g.generate(), 2);
    assert_eq!(g.current(), 2);
    let mut seeded = IdGenerator::new(Some(41));
    assert_eq!(seeded.generate(), 42);
}

#[test]
fn ids_increase_above_the_seed() {
    let mut m = TaskManager::from_json_string("[]", 7).unwrap();
    m.add_task("a".to_string());
    m.add_task("b".to_string());
    m.add_task("c".to_string());
    let ids: Vec<u32> = m.tasks.iter().map(|t| t.id).collect();
    assert_eq!(ids, vec![8, 9, 10]);
    assert_eq!(m.to_json_string().1, 10);
}

#[test]
fn new_task_starts_to_do() {
    let t = Task::new(3, String::new());
    assert_eq!(t.id, 3);
    assert_eq!(t.get_id(), 3);
    assert_eq!(t.description, "");
    assert_eq!(t.status, TaskStatus::ToDo);
    assert_eq!(t.created_at, t.updated_at);
}

#[test]
fn done_then_in_progress_moves_forward() {
    let mut t = Task::new_at(1, "x".to_string(), at(100));
    t.mark_done_at(at(200));
    assert_eq!(t.status, TaskStatus::Done);
    let before = t.updated_at;
    t.mark_in_progress_at(at(300));
    assert_eq!(t.status, TaskStatus::InProgress);
    assert!(t.updated_at.secs > before.secs);
    assert_eq!(t.created_at, at(100));
}

#[test]
fn change_at_a_stale_clock_still_advances() {
    let mut t = Task::new_at(1, "x".to_string(), at(100));
    t.mark_done_at(at(100));
    assert_eq!(t.updated_at, Timestamp { secs: 100, nanos: 1, offset: 0 });
    t.mark_in_progress_at(at(50));
    assert_eq!(t.updated_at, Timestamp { secs: 100, nanos: 2, offset: 0 });
    let mut late = Task::new_at(2, "y".to_string(), Timestamp { secs: 7, nanos: 999_999_999, offset: 0 });
    late.update_at("z".to_string(), at(7));
    assert_eq!(late.updated_at, Timestamp { secs: 8, nanos: 0, offset: 0 });
    assert_eq!(late.created_at, Timestamp { secs: 7, nanos: 999_999_999, offset: 0 });
}

#[test]
fn clock_changes_strictly_advance() {
    let mut t = Task::new(1, "x".to_string());
    let first = t.updated_at;
    t.mark_done();
    let second = t.updated_at;
    t.mark_in_progress();
    assert!(first.precedes(&second));
    assert!(second.precedes(&t.updated_at));
}

#[test]
fn change_before_creation_keeps_order() {
    let mut t = Task::new_at(1, "x".to_string(), at(500));
    t.update_at("y".to_string(), at(400));
    assert_eq!(t.description, "y");
    assert_eq!(t.updated_at, Timestamp { secs: 500, nanos: 1, offset: 0 });
    assert_eq!(t.created_at, at(500));
}

#[test]
fn clock_mutations_keep_creation_time() {
    let mut t = Task::new(1, "x".to_string());
    let created = t.created_at;
    t.mark_done();
    t.mark_in_progress();
    t.update("y".to_string());
    assert_eq!(t.status, TaskStatus::InProgress);
    assert_eq!(t.description, "y");
    assert_eq!(t.created_at, created);
    assert!(!t.updated_at.precedes(&t.created_at));
}

#[test]
fn remove_absent_id_changes_nothing() {
    let mut m = TaskManager::new();
    m.add_task_at("a".to_string(), at(1));
    m.add_task_at("b".to_string(), at(2));
    let before = m.to_json_string();
    m.remove_task(99);
    assert_eq!(m.tasks.len(), 2);
    assert_eq!(m.to_json_string(), before);
}

#[test]
fn remove_keeps_survivors_in_order() {
    let mut m = TaskManager::new();
    m.add_task_at("a".to_string(), at(1));
    m.add_task_at("b".to_string(), at(2));
    m.add_task_at("c".to_string(), at(3));
    m.remove_task(2);
    let ids: Vec<u32> = m.tasks.iter().map(|t| t.id).collect();
    assert_eq!(ids, vec![1, 3]);
    assert_eq!(m.to_json_string().1, 3);
}

#[test]
fn get_finds_first_match() {
    let mut m = TaskManager::new();
    m.add_task_at("a".to_string(), at(1));
    m.add_task_at("b".to_string(), at(2));
    assert_eq!(m.get_task(2).unwrap().description, "b");
    assert!(m.get_task(3).is_none());
    m.get_task_mut(1).unwrap().mark_done_at(at(5));
    assert_eq!(m.get_task(1).unwrap().status, TaskStatus::Done);
    assert_eq!(m.get_task(1).unwrap().updated_at, at(5));
}

#[test]
fn round_trip_keeps_tasks() {
    let mut m = TaskManager::new();
    m.add_task_at("first \"quoted\" line\nsecond".to_string(), Timestamp { secs: 1_700_000_000, nanos: 123_456_789, offset: 3600 });
    m.add_task_at("zweite Aufgabe ✓".to_string(), Timestamp { secs: -1_000, nanos: 0, offset: -19_800 });
    m.get_task_mut(2).unwrap().mark_in_progress_at(Timestamp { secs: 5, nanos: 500_000_000, offset: 0 });
    let (text, counter) = m.to_json_string();
    let back = TaskManager::from_json_string(&text, counter).unwrap();
    assert_eq!(back.tasks.len(), 2);
    for (a, b) in m.tasks.iter().zip(back.tasks.iter()) {
        assert_eq!(a.id, b.id);
        assert_eq!(a.description, b.description);
        assert_eq!(a.status, b.status);
        assert_eq!(a.created_at, b.created_at);
        assert_eq!(a.updated_at, b.updated_at);
    }
    assert_eq!(back.to_json_string(), (text, 2));
}

#[test]
fn record_missing_status_is_dropped() {
    let blob = r#"[
        {"id": 1, "description": "kept", "status": "Done",
         "created_at": "2024-01-01T10:00:00+00:00", "updated_at": "2024-01-02T10:00:00+00:00"},
        {"id": 2, "description": "dropped",
         "created_at": "2024-01-01T10:00:00+00:00", "updated_at": "2024-01-02T10:00:00+00:00"}
    ]"#;
    let m = TaskManager::from_json_string(blob, 2).unwrap();
    assert_eq!(m.tasks.len(), 1);
    assert_eq!(m.tasks[0].id, 1);
    assert_eq!(m.tasks[0].description, "kept");
    assert_eq!(m.tasks[0].status, TaskStatus::Done);
    assert_eq!(m.tasks[0].created_at, Timestamp { secs: 1_704_103_200, nanos: 0, offset: 0 });
}

#[test]
fn malformed_records_are_dropped() {
    let blob = r#"[
        {"id": 1, "description": "bad status", "status": "In Progress",
         "created_at": "2024-01-01T10:00:00+00:00", "updated_at": "2024-01-01T10:00:00+00:00"},
        {"id": 2, "description": "bad time", "status": "ToDo",
         "created_at": "yesterday", "updated_at": "2024-01-01T10:00:00+00:00"},
        {"id": -3, "description": "bad id", "status": "ToDo",
         "created_at": "2024-01-01T10:00:00+00:00", "updated_at": "2024-01-01T10:00:00+00:00"},
        {"id": 4, "description": 5, "status": "ToDo",
         "created_at": "2024-01-01T10:00:00+00:00", "updated_at": "2024-01-01T10:00:00+00:00"},
        7,
        {"id": 5, "description": "good", "status": "InProgress",
         "created_at": "2024-01-01T10:00:00+05:30", "updated_at": "2024-01-01T10:00:00.25-02:00"}
    ]"#;
    let m = TaskManager::from_json_string(blob, 9).unwrap();
    assert_eq!(m.tasks.len(), 1);
    assert_eq!(m.tasks[0].id, 5);
    assert_eq!(m.tasks[0].created_at.offset, 19_800);
    assert_eq!(m.tasks[0].updated_at, Timestamp { secs: 1_704_110_400, nanos: 250_000_000, offset: -7_200 });
}

#[test]
fn timestamps_are_kept_as_written() {
    let blob = r#"[
        {"id": 1, "description": "leap", "status": "ToDo",
         "created_at": "2016-12-31T23:59:60Z", "updated_at": "2016-12-31T23:59:60Z"},
        {"id": 2, "description": "edges", "status": "ToDo",
         "created_at": "0000-01-01T00:00:00+00:00", "updated_at": "9999-12-31T23:59:59.999999999+00:00"}
    ]"#;
    let m = TaskManager::from_json_string(blob, 2).unwrap();
    assert_eq!(m.tasks.len(), 2);
    assert_eq!(m.tasks[0].created_at, Timestamp { secs: 1_483_228_799, nanos: 1_000_000_000, offset: 0 });
    assert_eq!(m.tasks[1].created_at, Timestamp { secs: -62_167_219_200, nanos: 0, offset: 0 });
    assert_eq!(m.tasks[1].updated_at, Timestamp { secs: 253_402_300_799, nanos: 999_999_999, offset: 0 });
    let (text, counter) = m.to_json_string();
    assert!(text.contains("23:59:60"));
    let back = TaskManager::from_json_string(&text, counter).unwrap();
    for (a, b) in m.tasks.iter().zip(back.tasks.iter()) {
        assert_eq!(a.created_at, b.created_at);
        assert_eq!(a.updated_at, b.updated_at);
    }
}

#[test]
fn serializable_trait_writes_and_reads_records() {
    let t = Task::new_at(4, "trait".to_string(), Timestamp { secs: 60, nanos: 5, offset: 120 });
    let record = Serializable::to_json(&t);
    let back = <Task as Serializable>::from_json(&record).unwrap();
    assert_eq!(back.id, 4);
    assert_eq!(back.description, "trait");
    assert_eq!(back.created_at, t.created_at);
    let odd = Task::new_at(5, "odd".to_string(), Timestamp { secs: 0, nanos: 0, offset: 30 });
    let back = <Task as Serializable>::from_json(&Serializable::to_json(&odd)).unwrap();
    assert_eq!(back.created_at, Timestamp { secs: 0, nanos: 0, offset: 0 });
}

#[test]
fn unparsable_blob_is_rejected() {
    assert!(TaskManager::from_json_string("[{", 3).is_none());
    assert!(TaskManager::from_json_string("", 3).is_none());
    assert!(TaskManager::from_json_string("{\"id\": 1}", 3).is_none());
    assert!(TaskManager::from_json_string("5", 3).is_none());
    assert!(TaskManager::from_json_string("\"[]\"", 3).is_none());
}

#[test]
fn end_to_end_scenario() {
    let mut m = TaskManager::new();
    m.add_task_at("write spec".to_string(), at(10));
    let t = m.get_task(1).unwrap();
    assert_eq!(t.id, 1);
    assert_eq!(t.status, TaskStatus::ToDo);
    let first = t.updated_at;

    m.get_task_mut(1).unwrap().mark_in_progress_at(at(20));
    let t = m.get_task(1).unwrap();
    assert_eq!(t.status, TaskStatus::InProgress);
    assert!(first.precedes(&t.updated_at));
    let second = t.updated_at;

    m.get_task_mut(1).unwrap().update_at("write spec v2".to_string(), at(30));
    let t = m.get_task(1).unwrap();
    assert_eq!(t.description, "write spec v2");
    assert!(second.precedes(&t.updated_at));

    assert!(m.get_task(2).is_none());
    m.remove_task(1);
    assert!(m.get_task(1).is_none());
    assert_eq!(m.to_json_string(), ("[]".to_string(), 1));
}

#[test]
fn apply_reports_each_outcome() {
    let mut m = TaskManager::new();
    let now = at(50);
    assert!(matches!(apply_command(&mut m, command(TaskOperation::Add, None, None), now), CommandOutcome::MissingDescription));
    assert!(matches!(apply_command(&mut m, command(TaskOperation::Add, None, Some("a")), now), CommandOutcome::Added(1)));
    assert!(matches!(apply_command(&mut m, command(TaskOperation::Delete, None, None), now), CommandOutcome::MissingId));
    assert!(matches!(apply_command(&mut m, command(TaskOperation::MarkDone, Some(4), None), now), CommandOutcome::NotFound(4)));
    assert!(matches!(apply_command(&mut m, command(TaskOperation::MarkDone, Some(1), None), now), CommandOutcome::MarkedDone(1)));
    assert!(matches!(apply_command(&mut m, command(TaskOperation::MarkInProgress, Some(1), None), now), CommandOutcome::MarkedInProgress(1)));
    assert!(matches!(apply_command(&mut m, command(TaskOperation::UpdateDesc, Some(1), None), now), CommandOutcome::MissingDescription));
    assert!(matches!(apply_command(&mut m, command(TaskOperation::UpdateDesc, Some(1), Some("b")), now), CommandOutcome::Updated(1)));
    match apply_command(&mut m, command(TaskOperation::Get, Some(1), None), now) {
        CommandOutcome::Found(t) => {
            assert_eq!(t.description, "b");
            assert_eq!(t.status, TaskStatus::InProgress);
        }
        other => panic!("unexpected outcome {:?}", other),
    }
    assert!(matches!(apply_command(&mut m, command(TaskOperation::List, None, None), now), CommandOutcome::Listed));
    assert!(matches!(apply_command(&mut m, command(TaskOperation::Delete, Some(1), None), now), CommandOutcome::Deleted(1)));
    assert_eq!(m.tasks.len(), 0);
}

#[test]
fn ids_exhausted_at_the_top() {
    let mut m = TaskManager::from_json_string("[]", u32::MAX).unwrap();
    assert!(matches!(apply_command(&mut m, command(TaskOperation::Add, None, Some("a")), at(1)), CommandOutcome::IdsExhausted));
    assert_eq!(m.tasks.len(), 0);
}

#[test]
fn restore_falls_back_to_defaults() {
    let m = restore(Err("missing".to_string()), Err("missing".to_string()));
    assert_eq!(m.to_json_string(), ("[]".to_string(), 0));
    let m = restore(Ok("[]".to_string()), Ok("12".to_string()));
    assert_eq!(m.to_json_string().1, 12);
    let m = restore(Ok("[]".to_string()), Ok("twelve".to_string()));
    assert_eq!(m.to_json_string().1, 0);
    let m = restore(Ok("not json".to_string()), Ok("12".to_string()));
    assert_eq!(m.to_json_string(), ("[]".to_string(), 0));
    let m = restore(Ok("{}".to_string()), Ok("12".to_string()));
    assert_eq!(m.to_json_string(), ("[]".to_string(), 0));
}

#[test]
fn execute_persists_both_blobs() {
    let ids = MemoryStore::empty();
    let tasks = MemoryStore::empty();
    let r = execute_command(command(TaskOperation::Add, None, Some("write spec")), &ids, &tasks);
    assert!(matches!(r.outcome, CommandOutcome::Added(1)));
    assert_eq!(ids.contents(), Some("1".to_string()));
    assert_eq!(r.id_text, "1");
    assert_eq!(tasks.contents(), Some(r.tasks_text.clone()));
    let r = execute_command(command(TaskOperation::Add, None, Some("second")), &ids, &tasks);
    assert!(matches!(r.outcome, CommandOutcome::Added(2)));
    assert_eq!(r.tasks.len(), 2);
    let r = execute_command(command(TaskOperation::Delete, Some(1), None), &ids, &tasks);
    assert!(matches!(r.outcome, CommandOutcome::Deleted(1)));
    let r = execute_command(command(TaskOperation::List, None, None), &ids, &tasks);
    assert!(matches!(r.outcome, CommandOutcome::Listed));
    assert_eq!(r.tasks.len(), 1);
    assert_eq!(r.tasks[0].id, 2);
    assert_eq!(ids.contents(), Some("2".to_string()));
    let reloaded = TaskManager::from_json_string(&tasks.contents().unwrap(), 2).unwrap();
    assert_eq!(reloaded.tasks[0].description, "second");
}

#[test]
fn execute_reads_existing_counter() {
    let ids = MemoryStore::holding("+41");
    let tasks = MemoryStore::holding("[]");
    let r = execute_command(command(TaskOperation::Add, None, Some("x")), &ids, &tasks);
    assert!(matches!(r.outcome, CommandOutcome::Added(42)));
    assert_eq!(ids.contents(), Some("42".to_string()));
}

#[test]
fn decimal_text_and_parsing() {
    assert_eq!(u32_text(0), "0");
    assert_eq!(u32_text(4_294_967_295), "4294967295");
    assert_eq!(i64_text(-1700), "-1700");
    assert_eq!(parse_u32("17"), Some(17));
    assert_eq!(parse_u32("+17"), Some(17));
    assert_eq!(parse_u32("-1"), None);
    assert_eq!(parse_u32("4294967296"), None);
    assert_eq!(parse_u32(" 1"), None);
    assert_eq!(parse_u32(""), None);
}

#[test]
fn rfc3339_text_round_trips() {
    let t = Timestamp { secs: 0, nanos: 1_000, offset: -3_600 };
    let s = to_rfc3339(&t);
    assert_eq!(s, "1969-12-31T23:00:00.000001-01:00");
    assert_eq!(parse_rfc3339(&s), Some(t));
    assert_eq!(parse_rfc3339("2024-13-01T00:00:00Z"), None);
}

#[test]
fn clamped_brings_odd_values_in_range() {
    let odd = Timestamp { secs: i64::MAX, nanos: 1_500_000_000, offset: -3_630 };
    let c = odd.clamped();
    assert_eq!(c, Timestamp { secs: 253_402_304_399, nanos: 1_500_000_000, offset: -3_600 });
    let not_leap = Timestamp { secs: 10, nanos: 1_500_000_000, offset: 0 };
    assert_eq!(not_leap.clamped(), Timestamp { secs: 10, nanos: 999_999_999, offset: 0 });
    let fine = Timestamp { secs: 12, nanos: 3, offset: 60 };
    assert_eq!(fine.clamped(), fine);
    assert_eq!(Timestamp { secs: 1, nanos: 2_000_000, offset: 0 }.timestamp_millis(), 1_002);
}

#[test]
fn json_records_are_written_compactly() {
    let mut arr = new_array();
    let mut o = new_object();
    assert!(task_tracker::json_tree::insert(&mut o, "n", from_u32(5)).is_ok());
    assert!(task_tracker::json_tree::insert(&mut o, "s", from_string("a\"b".to_string())).is_ok());
    assert!(push(&mut arr, o).is_ok());
    assert_eq!(dump(&arr), "[{\"n\":5,\"s\":\"a\\\"b\"}]");
    let mut not_array = new_object();
    assert!(push(&mut not_array, from_u32(1)).is_err());
}

#[test]
fn file_storage_paths() {
    let s = FileStorage::new(Some("data/tasks".to_string()));
    assert_eq!(s.path(), "data/tasks");
    let d = FileStorage::new(None);
    assert!(d.path().starts_with("temp/"));
    assert!(d.path().len() > "temp/".len());
}

#[test]
fn long_digit_runs_are_refused() {
    let blob = format!("[0.{}]", "0".repeat(40_000));
    assert!(TaskManager::from_json_string(&blob, 4).is_none());
    assert!(task_tracker::json_tree::scan_long_digit_run(&blob));
    let ok = format!("[0.{}]", "0".repeat(100));
    assert!(!task_tracker::json_tree::scan_long_digit_run(&ok));
    assert_eq!(TaskManager::from_json_string(&ok, 4).unwrap().tasks.len(), 0);
    let digits = "7".repeat(40_000);
    assert!(!task_tracker::json_tree::scan_long_digit_run(&format!("[\"{}\"]", digits)));
    assert!(task_tracker::json_tree::scan_long_digit_run(&format!("[\"a\\\"\", {}]", digits)));
}

#[test]
fn long_descriptions_round_trip() {
    let mut m = TaskManager::new();
    let digits = "7".repeat(40_000);
    m.add_task_at(digits.clone(), at(3));
    let (text, counter) = m.to_json_string();
    let back = TaskManager::from_json_string(&text, counter).unwrap();
    assert_eq!(back.tasks[0].description, digits);
}

#[test]
fn corrupt_blob_saves_an_empty_list() {
    let ids = MemoryStore::holding("7");
    let tasks = MemoryStore::holding("garbage");
    let r = execute_command(command(TaskOperation::List, None, None), &ids, &tasks);
    assert!(matches!(r.outcome, CommandOutcome::Listed));
    assert_eq!(tasks.contents(), Some("[]".to_string()));
    assert_eq!(ids.contents(), Some("0".to_string()));
}

#[test]
fn unreadable_counter_starts_at_zero() {
    let ids = MemoryStore::holding("abc");
    let tasks = MemoryStore::holding("[]");
    let r = execute_command(command(TaskOperation::Add, None, Some("x")), &ids, &tasks);
    assert!(matches!(r.outcome, CommandOutcome::Added(1)));
    assert_eq!(ids.contents(), Some("1".to_string()));
    let saved = TaskManager::from_json_string(&tasks.contents().unwrap(), 1).unwrap();
    assert_eq!(saved.tasks.len(), 1);
    assert_eq!(saved.tasks[0].description, "x");
}

#[test]
fn storage_path_from_millis() {
    assert_eq!(FileStorage::at_millis(1_700_000_000_123).path(), "temp/1700000000123");
    assert_eq!(FileStorage::at_millis(-5).path(), "temp/-5");
}
