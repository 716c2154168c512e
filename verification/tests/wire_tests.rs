//! Tests of the wire encoding and the rendered texts: exact JSON lines,
//! escaping, decimal rendering, and the display line.

use alert_scheduler::AlertSchedule;
use alert_scheduler::Response;
use alert_scheduler::ScheduleError;
use alert_scheduler::encode_response;
use alert_scheduler::u64_to_string;

fn schedule(id: u64, title: &str, message: &str, interval: u64, stopped: bool) -> AlertSchedule {
    AlertSchedule {
        id,
        title: title.to_string(),
        message: message.to_string(),
        repeat_interval_in_seconds: interval,
        stopped,
    }
}

#[test]
fn created_response_line_is_exact() {
    let line = encode_response(&Response::Created {
        schedule: schedule(1, "T", "M", 5, false),
    });
    assert_eq!(
        line,
        "{\"status\":\"Ok\",\"data\":{\"created\":{\"id\":1,\"title\":\"T\",\"message\":\"M\",\"repeat_interval_in_seconds\":5,\"stopped\":false}}}"
    );
}

#[test]
fn listed_response_line_is_exact() {
    let line = encode_response(&Response::Listed {
        schedules: vec![
            schedule(1, "a", "ma", 1, false),
            schedule(2, "b", "mb", 2, true),
        ],
    });
    assert_eq!(
        line,
        "{\"status\":\"Ok\",\"data\":{\"schedules\":[{\"id\":1,\"title\":\"a\",\"message\":\"ma\",\"repeat_interval_in_seconds\":1,\"stopped\":false},{\"id\":2,\"title\":\"b\",\"message\":\"mb\",\"repeat_interval_in_seconds\":2,\"stopped\":true}]}}"
    );
}

#[test]
fn empty_listing_is_an_empty_array() {
    let line = encode_response(&Response::Listed { schedules: vec![] });
    assert_eq!(line, "{\"status\":\"Ok\",\"data\":{\"schedules\":[]}}");
}

#[test]
fn updated_stopped_started_and_removed_lines_are_exact() {
    let s = schedule(2, "t", "m", 9, true);
    assert_eq!(
        encode_response(&Response::Updated { schedule: s.clone() }),
        "{\"status\":\"Ok\",\"data\":{\"updated\":{\"id\":2,\"title\":\"t\",\"message\":\"m\",\"repeat_interval_in_seconds\":9,\"stopped\":true}}}"
    );
    assert_eq!(
        encode_response(&Response::Stopped { schedule: s.clone() }),
        "{\"status\":\"Ok\",\"data\":{\"stopped\":{\"id\":2,\"title\":\"t\",\"message\":\"m\",\"repeat_interval_in_seconds\":9,\"stopped\":true}}}"
    );
    assert_eq!(
        encode_response(&Response::Started { schedule: s.clone() }),
        "{\"status\":\"Ok\",\"data\":{\"started\":{\"id\":2,\"title\":\"t\",\"message\":\"m\",\"repeat_interval_in_seconds\":9,\"stopped\":true}}}"
    );
    assert_eq!(
        encode_response(&Response::Removed { id: 7 }),
        "{\"status\":\"Ok\",\"data\":{\"removed_id\":7}}"
    );
}

#[test]
fn error_response_line_is_exact() {
    let line = encode_response(&Response::Error {
        message: "Alert ID 99 not found".to_string(),
    });
    assert_eq!(line, "{\"status\":\"Err\",\"data\":\"Alert ID 99 not found\"}");
}

#[test]
fn titles_and_messages_are_json_escaped() {
    let line = encode_response(&Response::Created {
        schedule: schedule(3, "a\"b\\c", "x\ny\tz\r\u{8}\u{c}\u{1}\u{1f}", 1, false),
    });
    assert_eq!(
        line,
        "{\"status\":\"Ok\",\"data\":{\"created\":{\"id\":3,\"title\":\"a\\\"b\\\\c\",\"message\":\"x\\ny\\tz\\r\\b\\f\\u0001\\u001f\",\"repeat_interval_in_seconds\":1,\"stopped\":false}}}"
    );
}

#[test]
fn unicode_text_passes_through_unescaped() {
    let line = encode_response(&Response::Error {
        message: "héllo ✓".to_string(),
    });
    assert_eq!(line, "{\"status\":\"Err\",\"data\":\"héllo ✓\"}");
}

#[test]
fn decimal_rendering_is_exact() {
    assert_eq!(u64_to_string(0), "0");
    assert_eq!(u64_to_string(7), "7");
    assert_eq!(u64_to_string(10), "10");
    assert_eq!(u64_to_string(105), "105");
    assert_eq!(u64_to_string(u64::MAX), "18446744073709551615");
}

#[test]
fn display_line_pads_the_id_to_three_columns() {
    assert_eq!(
        schedule(7, "T", "M", 5, false).display_line(),
        "#  7  T - M (every 5s)"
    );
    assert_eq!(
        schedule(42, "a", "b", 3600, false).display_line(),
        "# 42  a - b (every 3600s)"
    );
    assert_eq!(
        schedule(1234, "a", "b", 1, false).display_line(),
        "#1234  a - b (every 1s)"
    );
}

#[test]
fn schedule_error_messages_are_exact() {
    assert_eq!(ScheduleError::TitleTooLong.message(), "Title exceeds 100 characters");
    assert_eq!(ScheduleError::MessageTooLong.message(), "Message exceeds 500 characters");
    assert_eq!(ScheduleError::InvalidId.message(), "Invalid alert ID");
}
