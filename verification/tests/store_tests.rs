//! Tests of the schedule store, the constructor's validation, the timer
//! registry book, and the command mapping.

use alert_scheduler::AlertSchedule;
use alert_scheduler::Commands;
use alert_scheduler::Request;
use alert_scheduler::ScheduleError;
use alert_scheduler::ScheduleStore;
use alert_scheduler::TimerRegistry;
use alert_scheduler::request_of;

fn schedule(id: u64, title: &str) -> AlertSchedule {
    AlertSchedule {
        id,
        title: title.to_string(),
        message: "m".to_string(),
        repeat_interval_in_seconds: 5,
        stopped: false,
    }
}

#[test]
fn constructor_rejects_oversize_and_accepts_the_limits() {
    assert!(matches!(
        AlertSchedule::new("x".repeat(101), "m".to_string(), 5),
        Err(ScheduleError::TitleTooLong)
    ));
    assert!(matches!(
        AlertSchedule::new("t".to_string(), "y".repeat(501), 5),
        Err(ScheduleError::MessageTooLong)
    ));
    let s = AlertSchedule::new("x".repeat(100), "y".repeat(500), 5).unwrap();
    assert_eq!(s.id, 0, "the daemon assigns the real id later");
    assert!(!s.stopped);
}

#[test]
fn constructor_counts_characters_not_bytes() {
    // 100 two-byte characters are within the limit.
    let s = AlertSchedule::new("é".repeat(100), "m".to_string(), 5);
    assert!(s.is_ok());
    assert!(matches!(
        AlertSchedule::new("é".repeat(101), "m".to_string(), 5),
        Err(ScheduleError::TitleTooLong)
    ));
}

#[test]
fn exported_schedules_are_adopted_back_unchanged() {
    let mut store = ScheduleStore::new();
    store.push(schedule(1, "a"));
    store.push(schedule(2, "b"));
    let exported = store.snapshot();
    let reloaded = ScheduleStore::from_schedules(exported).expect("a valid export is adopted");
    assert_eq!(reloaded.len(), 2);
    assert_eq!(reloaded.get(0).id, 1);
    assert_eq!(reloaded.get(0).title, "a");
    assert_eq!(reloaded.get(1).id, 2);
    assert_eq!(reloaded.get(1).title, "b");
}

#[test]
fn duplicate_ids_are_rejected_like_a_corrupt_file() {
    let loaded = vec![schedule(1, "a"), schedule(1, "b")];
    assert!(ScheduleStore::from_schedules(loaded).is_none());
}

#[test]
fn an_unassigned_id_is_rejected_like_a_corrupt_file() {
    let loaded = vec![schedule(0, "a")];
    assert!(ScheduleStore::from_schedules(loaded).is_none());
}

#[test]
fn find_index_and_max_id_follow_the_collection() {
    let mut store = ScheduleStore::new();
    assert_eq!(store.max_id(), 0);
    store.push(schedule(3, "a"));
    store.push(schedule(7, "b"));
    store.push(schedule(5, "c"));
    assert_eq!(store.max_id(), 7);
    assert_eq!(store.find_index(5), Some(2));
    assert_eq!(store.find_index(4), None);
}

#[test]
fn registry_tracks_started_and_stopped_ids() {
    let mut reg = TimerRegistry::new();
    assert!(!reg.contains(1));
    reg.note_started(1);
    reg.note_started(2);
    assert!(reg.contains(1));
    assert!(reg.contains(2));
    reg.note_stopped(1);
    assert!(!reg.contains(1));
    assert!(reg.contains(2));
    // Stopping an id without a timer is a no-op.
    reg.note_stopped(9);
    assert!(reg.contains(2));
    reg.stop_all();
    assert!(!reg.contains(2));
}

#[test]
fn commands_map_onto_their_requests() {
    match request_of(Commands::Schedule {
        title: "t".to_string(),
        message: "m".to_string(),
        interval: 4,
    }) {
        Request::Add {
            title,
            message,
            interval,
        } => {
            assert_eq!(title, "t");
            assert_eq!(message, "m");
            assert_eq!(interval, 4);
        }
        _ => panic!("expected Add"),
    }
    assert!(matches!(request_of(Commands::List), Request::List));
    assert!(matches!(
        request_of(Commands::Remove { id: 9 }),
        Request::Remove { id: 9 }
    ));
    match request_of(Commands::Update {
        id: 2,
        title: "t".to_string(),
        message: "m".to_string(),
        interval: 8,
    }) {
        Request::Update { id, interval, .. } => {
            assert_eq!(id, 2);
            assert_eq!(interval, 8);
        }
        _ => panic!("expected Update"),
    }
}

#[test]
fn not_found_message_renders_the_id() {
    assert_eq!(alert_scheduler::not_found_message(99), "Alert ID 99 not found");
    assert_eq!(alert_scheduler::not_found_message(0), "Alert ID 0 not found");
}
