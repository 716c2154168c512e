//! Scenario tests for the request handler: id assignment, validation,
//! idempotence, and the timer bookkeeping around each operation.

use alert_scheduler::Applied;
use alert_scheduler::Daemon;
use alert_scheduler::Request;
use alert_scheduler::Response;
use alert_scheduler::ScheduleStore;
use alert_scheduler::TimerAction;

fn new_daemon() -> Daemon {
    Daemon::new(ScheduleStore::new())
}

fn add(d: &mut Daemon, title: &str, message: &str, interval: u64) -> Applied {
    d.handle_request(Request::Add {
        title: title.to_string(),
        message: message.to_string(),
        interval,
    })
}

/// Applies a mutation as the daemon loop does when the save succeeds:
/// commit the timer actions and hand back the response.
fn commit(d: &mut Daemon, a: Applied) -> Response {
    match a {
        Applied::Done { response } => response,
        Applied::Mutated { response, actions } => {
            d.commit_timer_actions(&actions);
            response
        }
    }
}

fn created_id(a: &Applied) -> u64 {
    match a {
        Applied::Mutated {
            response: Response::Created { schedule },
            ..
        } => schedule.id,
        _ => panic!("expected a created schedule"),
    }
}

#[test]
fn add_assigns_one_on_empty_store() {
    let mut d = new_daemon();
    let a = add(&mut d, "T", "M", 5);
    match &a {
        Applied::Mutated { response, actions } => {
            match response {
                Response::Created { schedule } => {
                    assert_eq!(schedule.id, 1);
                    assert_eq!(schedule.title, "T");
                    assert_eq!(schedule.message, "M");
                    assert_eq!(schedule.repeat_interval_in_seconds, 5);
                    assert!(!schedule.stopped);
                }
                _ => panic!("expected Created"),
            }
            assert_eq!(actions.len(), 1);
            match &actions[0] {
                TimerAction::Start(s) => assert_eq!(s.id, 1),
                _ => panic!("expected a Start action"),
            }
        }
        _ => panic!("expected a mutation"),
    }
    let r = commit(&mut d, a);
    assert_eq!(
        alert_scheduler::encode_response(&r),
        "{\"status\":\"Ok\",\"data\":{\"created\":{\"id\":1,\"title\":\"T\",\"message\":\"M\",\"repeat_interval_in_seconds\":5,\"stopped\":false}}}"
    );
    assert!(d.timers.contains(1));
}

#[test]
fn add_ids_strictly_increase() {
    let mut d = new_daemon();
    let mut last = 0u64;
    for k in 0..5 {
        let a = add(&mut d, "T", "M", 10 + k);
        let id = created_id(&a);
        assert!(id > last);
        assert_eq!(id, last + 1);
        last = id;
        commit(&mut d, a);
    }
    assert_eq!(d.store.len(), 5);
}

#[test]
fn removed_max_id_is_reassigned() {
    let mut d = new_daemon();
    let a1 = add(&mut d, "a", "m", 1);
    assert_eq!(created_id(&a1), 1);
    commit(&mut d, a1);
    let a2 = add(&mut d, "b", "m", 1);
    assert_eq!(created_id(&a2), 2);
    commit(&mut d, a2);
    // Removing the largest id lowers the maximum, so 2 is assigned again.
    let rm = d.handle_request(Request::Remove { id: 2 });
    commit(&mut d, rm);
    let a3 = add(&mut d, "c", "m", 1);
    assert_eq!(created_id(&a3), 2);
}

#[test]
fn removing_a_lower_id_does_not_lower_the_next() {
    let mut d = new_daemon();
    let a1 = add(&mut d, "a", "m", 1);
    commit(&mut d, a1);
    let a2 = add(&mut d, "b", "m", 1);
    commit(&mut d, a2);
    // ids are 1 and 2; the current maximum stays 2 after removing 1.
    let rm = d.handle_request(Request::Remove { id: 1 });
    commit(&mut d, rm);
    let a3 = add(&mut d, "c", "m", 1);
    assert_eq!(created_id(&a3), 3);
}

#[test]
fn add_with_101_character_title_fails_and_leaves_store_unchanged() {
    let mut d = new_daemon();
    let a = add(&mut d, &"x".repeat(101), "M", 5);
    match a {
        Applied::Done {
            response: Response::Error { message },
        } => assert_eq!(message, "Title exceeds 100 characters"),
        _ => panic!("expected a validation error"),
    }
    assert_eq!(d.store.len(), 0);
}

#[test]
fn add_with_100_character_title_succeeds() {
    let mut d = new_daemon();
    let a = add(&mut d, &"x".repeat(100), "M", 5);
    assert_eq!(created_id(&a), 1);
}

#[test]
fn add_with_501_character_message_fails() {
    let mut d = new_daemon();
    let a = add(&mut d, "T", &"y".repeat(501), 5);
    match a {
        Applied::Done {
            response: Response::Error { message },
        } => assert_eq!(message, "Message exceeds 500 characters"),
        _ => panic!("expected a validation error"),
    }
    assert_eq!(d.store.len(), 0);
}

#[test]
fn remove_of_unknown_id_reports_not_found() {
    let mut d = new_daemon();
    let a = add(&mut d, "T", "M", 5);
    commit(&mut d, a);
    let r = d.handle_request(Request::Remove { id: 99 });
    match r {
        Applied::Done {
            response: Response::Error { message },
        } => assert_eq!(message, "Alert ID 99 not found"),
        _ => panic!("expected not-found"),
    }
    assert_eq!(d.store.len(), 1);
}

#[test]
fn update_on_stopped_schedule_changes_fields_but_starts_no_timer() {
    let mut d = new_daemon();
    let a1 = add(&mut d, "a", "m", 1);
    commit(&mut d, a1);
    let a2 = add(&mut d, "b", "m", 1);
    commit(&mut d, a2);
    let stop = d.handle_request(Request::Stop { id: 2 });
    commit(&mut d, stop);
    assert!(!d.timers.contains(2));

    let up = d.handle_request(Request::Update {
        id: 2,
        title: "nt".to_string(),
        message: "nm".to_string(),
        interval: 60,
    });
    match &up {
        Applied::Mutated { response, actions } => {
            assert!(actions.is_empty(), "a stopped schedule gets no timer");
            match response {
                Response::Updated { schedule } => {
                    assert_eq!(schedule.title, "nt");
                    assert_eq!(schedule.message, "nm");
                    assert_eq!(schedule.repeat_interval_in_seconds, 60);
                    assert!(schedule.stopped);
                }
                _ => panic!("expected Updated"),
            }
        }
        _ => panic!("expected a mutation"),
    }
    commit(&mut d, up);
    assert!(!d.timers.contains(2));
    let s = d.store.get(d.store.find_index(2).unwrap());
    assert_eq!(s.title, "nt");
}

#[test]
fn update_on_running_schedule_restarts_its_timer() {
    let mut d = new_daemon();
    let a1 = add(&mut d, "a", "m", 1);
    commit(&mut d, a1);
    let up = d.handle_request(Request::Update {
        id: 1,
        title: "nt".to_string(),
        message: "nm".to_string(),
        interval: 60,
    });
    match &up {
        Applied::Mutated { actions, .. } => {
            assert_eq!(actions.len(), 2);
            assert!(matches!(actions[0], TimerAction::Stop(1)));
            match &actions[1] {
                TimerAction::Start(s) => {
                    assert_eq!(s.id, 1);
                    assert_eq!(s.repeat_interval_in_seconds, 60);
                }
                _ => panic!("expected a Start action"),
            }
        }
        _ => panic!("expected a mutation"),
    }
    commit(&mut d, up);
    assert!(d.timers.contains(1));
}

#[test]
fn stop_on_already_stopped_id_succeeds_and_changes_nothing() {
    let mut d = new_daemon();
    let a = add(&mut d, "T", "M", 5);
    commit(&mut d, a);
    let s1 = d.handle_request(Request::Stop { id: 1 });
    commit(&mut d, s1);
    assert!(!d.timers.contains(1));

    let s2 = d.handle_request(Request::Stop { id: 1 });
    match &s2 {
        Applied::Mutated { response, .. } => match response {
            Response::Stopped { schedule } => {
                assert_eq!(schedule.id, 1);
                assert!(schedule.stopped);
            }
            _ => panic!("expected Stopped"),
        },
        _ => panic!("expected a mutation"),
    }
    commit(&mut d, s2);
    assert!(!d.timers.contains(1));
    assert_eq!(d.store.len(), 1);
    let s = d.store.get(0);
    assert_eq!(s.title, "T");
    assert!(s.stopped);
}

#[test]
fn start_on_already_started_id_restarts_without_changing_fields() {
    let mut d = new_daemon();
    let a = add(&mut d, "T", "M", 5);
    commit(&mut d, a);
    assert!(d.timers.contains(1));
    let st = d.handle_request(Request::Start { id: 1 });
    match &st {
        Applied::Mutated { response, actions } => {
            assert_eq!(actions.len(), 2);
            assert!(matches!(actions[0], TimerAction::Stop(1)));
            assert!(matches!(&actions[1], TimerAction::Start(s) if s.id == 1));
            match response {
                Response::Started { schedule } => {
                    assert_eq!(schedule.title, "T");
                    assert_eq!(schedule.message, "M");
                    assert_eq!(schedule.repeat_interval_in_seconds, 5);
                    assert!(!schedule.stopped);
                }
                _ => panic!("expected Started"),
            }
        }
        _ => panic!("expected a mutation"),
    }
    commit(&mut d, st);
    assert!(d.timers.contains(1));
}

#[test]
fn stop_of_unknown_id_reports_not_found() {
    let mut d = new_daemon();
    let r = d.handle_request(Request::Stop { id: 3 });
    match r {
        Applied::Done {
            response: Response::Error { message },
        } => assert_eq!(message, "Alert ID 3 not found"),
        _ => panic!("expected not-found"),
    }
}

#[test]
fn list_returns_the_whole_collection_in_order() {
    let mut d = new_daemon();
    let a1 = add(&mut d, "a", "ma", 1);
    commit(&mut d, a1);
    let a2 = add(&mut d, "b", "mb", 2);
    commit(&mut d, a2);
    let r = d.handle_request(Request::List);
    match r {
        Applied::Done {
            response: Response::Listed { schedules },
        } => {
            assert_eq!(schedules.len(), 2);
            assert_eq!(schedules[0].id, 1);
            assert_eq!(schedules[0].title, "a");
            assert_eq!(schedules[1].id, 2);
            assert_eq!(schedules[1].title, "b");
        }
        _ => panic!("expected the listing"),
    }
}

#[test]
fn startup_actions_start_only_the_not_stopped_schedules() {
    let mut d = new_daemon();
    let a1 = add(&mut d, "a", "m", 1);
    commit(&mut d, a1);
    let a2 = add(&mut d, "b", "m", 1);
    commit(&mut d, a2);
    let stop = d.handle_request(Request::Stop { id: 1 });
    commit(&mut d, stop);

    // A fresh daemon over the same collection, as after a restart.
    let mut restarted = Daemon::new(ScheduleStore::from_schedules(d.store.snapshot()).unwrap());
    let actions = restarted.startup_actions();
    assert_eq!(actions.len(), 1);
    assert!(matches!(&actions[0], TimerAction::Start(s) if s.id == 2));
    restarted.commit_timer_actions(&actions);
    assert!(!restarted.timers.contains(1));
    assert!(restarted.timers.contains(2));
}

#[test]
fn update_checks_only_that_the_id_exists() {
    // Unlike Add, Update has no size precondition: it overwrites in place
    // whenever the id exists.
    let mut d = new_daemon();
    let a = add(&mut d, "T", "M", 5);
    commit(&mut d, a);
    let up = d.handle_request(Request::Update {
        id: 1,
        title: "x".repeat(101),
        message: "m".to_string(),
        interval: 5,
    });
    assert!(matches!(
        up,
        Applied::Mutated {
            response: Response::Updated { .. },
            ..
        }
    ));
}

#[test]
fn save_failure_path_reports_save_error() {
    let r = alert_scheduler::save_error_response("disk full");
    match r {
        Response::Error { message } => assert_eq!(message, "save error: disk full"),
        _ => panic!("expected the error response"),
    }
}

#[test]
fn undecodable_line_reports_decode_error() {
    let r = alert_scheduler::decode_error_response("expected value at line 1 column 1");
    match r {
        Response::Error { message } => {
            assert_eq!(message, "bad request JSON: expected value at line 1 column 1")
        }
        _ => panic!("expected the error response"),
    }
}
