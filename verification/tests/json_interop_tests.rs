//! Cross-checks of the library's JSON lines against a real JSON parser:
//! every encoded line must be a valid document with the specified shape.

use alert_scheduler::AlertSchedule;
use alert_scheduler::Request;
use alert_scheduler::Response;
use alert_scheduler::encode_request;
use alert_scheduler::encode_response;
use serde_json::Value;

fn parse(line: &str) -> Value {
    serde_json::from_str(line).expect("every encoded line is valid JSON")
}

#[test]
fn encoded_requests_are_exact_lines() {
    assert_eq!(encode_request(&Request::List), "{\"type\":\"List\"}");
    assert_eq!(
        encode_request(&Request::Add {
            title: "T".to_string(),
            message: "M".to_string(),
            interval: 5,
        }),
        "{\"type\":\"Add\",\"title\":\"T\",\"message\":\"M\",\"interval\":5}"
    );
    assert_eq!(
        encode_request(&Request::Update {
            id: 2,
            title: "t".to_string(),
            message: "m".to_string(),
            interval: 60,
        }),
        "{\"type\":\"Update\",\"id\":2,\"title\":\"t\",\"message\":\"m\",\"interval\":60}"
    );
    assert_eq!(encode_request(&Request::Remove { id: 9 }), "{\"type\":\"Remove\",\"id\":9}");
    assert_eq!(encode_request(&Request::Stop { id: 9 }), "{\"type\":\"Stop\",\"id\":9}");
    assert_eq!(encode_request(&Request::Start { id: 9 }), "{\"type\":\"Start\",\"id\":9}");
}

#[test]
fn encoded_requests_parse_back_with_their_fields() {
    let v = parse(&encode_request(&Request::Add {
        title: "a\"b\\c\n".to_string(),
        message: "héllo ✓".to_string(),
        interval: 3600,
    }));
    assert_eq!(v["type"], "Add");
    assert_eq!(v["title"], "a\"b\\c\n");
    assert_eq!(v["message"], "héllo ✓");
    assert_eq!(v["interval"], 3600);
}

#[test]
fn encoded_responses_parse_back_with_their_payloads() {
    let v = parse(&encode_response(&Response::Created {
        schedule: AlertSchedule {
            id: 1,
            title: "x\u{1}y".to_string(),
            message: "M".to_string(),
            repeat_interval_in_seconds: 5,
            stopped: false,
        },
    }));
    assert_eq!(v["status"], "Ok");
    assert_eq!(v["data"]["created"]["id"], 1);
    assert_eq!(v["data"]["created"]["title"], "x\u{1}y");
    assert_eq!(v["data"]["created"]["stopped"], false);

    let v = parse(&encode_response(&Response::Error {
        message: "Alert ID 99 not found".to_string(),
    }));
    assert_eq!(v["status"], "Err");
    assert_eq!(v["data"], "Alert ID 99 not found");
}

#[test]
fn listed_response_parses_back_in_order() {
    let v = parse(&encode_response(&Response::Listed {
        schedules: vec![
            AlertSchedule {
                id: 1,
                title: "a".to_string(),
                message: "ma".to_string(),
                repeat_interval_in_seconds: 1,
                stopped: false,
            },
            AlertSchedule {
                id: 2,
                title: "b".to_string(),
                message: "mb".to_string(),
                repeat_interval_in_seconds: 2,
                stopped: true,
            },
        ],
    }));
    let schedules = v["data"]["schedules"]
        .as_array()
        .expect("the listing is an array");
    assert_eq!(schedules.len(), 2);
    assert_eq!(schedules[0]["id"], 1);
    assert_eq!(schedules[1]["id"], 2);
    assert_eq!(schedules[1]["stopped"], true);
}
