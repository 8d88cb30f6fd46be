use kprf::http::api::{
    report, ApiHandler, DeliveryResult, Outcome, PushPlan, PushRequest, PushResponse,
    PushResponseError, Record, Request, SEND_TIMEOUT_MS,
};
use kprf::http::handlers::{generate_request_id, method_label, push, status_code};
use kprf::metrics::{Change, Metric};
use kprf::ratelimit::{Limiter, Rule};

fn record(topic: &str, data: &str) -> Record {
    Record {
        data: String::from(data),
        topic: String::from(topic),
        key: None,
        partition: None,
    }
}

fn limiter(rules: Vec<(&str, u32)>) -> Limiter {
    Limiter::new(
        rules
            .into_iter()
            .map(|(topic, max)| Rule {
                topic_name: String::from(topic),
                max_requests_per_minute: max,
            })
            .collect(),
    )
}

fn failed(message: &str) -> DeliveryResult {
    DeliveryResult::Failed {
        kind: 5,
        message: String::from(message),
    }
}

fn items(response: &PushResponse) -> Vec<(bool, Option<String>)> {
    response
        .errors
        .iter()
        .map(|e| (e.error, e.message.clone()))
        .collect()
}

#[test]
fn empty_batch_is_answered_ok_at_once() {
    let handler = ApiHandler::new(limiter(vec![]));
    let plan = handler.handle_push(PushRequest {
        records: vec![],
        wait_for_send: Some(true),
    });
    match plan {
        PushPlan::Respond(response) => {
            assert_eq!(response.status, "ok");
            assert_eq!(response.errors.len(), 0);
            assert_eq!(status_code(&response), 200);
        }
        _ => panic!("an empty batch was not answered at once"),
    }
}

#[test]
fn sync_happy_path() {
    let mut handler = ApiHandler::new(limiter(vec![]));
    let plan = handler.handle_push(PushRequest {
        records: vec![record("t", "x")],
        wait_for_send: Some(true),
    });
    let mut batch = match plan {
        PushPlan::Await(batch) => batch,
        _ => panic!("a sync batch was not awaited"),
    };
    assert_eq!(batch.len(), 1);
    assert!(batch.response().is_none());
    assert_eq!(handler.screen(&mut batch, 0), true);
    assert_eq!(batch.record(0).unwrap().topic, "t");
    assert_eq!(batch.record(0).unwrap().data, "x");
    assert!(!batch.is_settled());
    assert_eq!(batch.complete(0, DeliveryResult::Delivered), true);
    assert!(batch.is_settled());
    let response = batch.response().unwrap();
    assert_eq!(response.status, "ok");
    assert_eq!(items(&response), vec![(false, None)]);
    assert_eq!(status_code(&response), 200);
}

#[test]
fn async_batch_is_answered_before_it_is_sent() {
    let handler = ApiHandler::new(limiter(vec![]));
    for wait in [Some(false), None] {
        let plan = handler.handle_push(PushRequest {
            records: vec![record("t", "x"), record("t", "y")],
            wait_for_send: wait,
        });
        match plan {
            PushPlan::Detach { response, batch } => {
                assert_eq!(response.status, "ok");
                assert_eq!(response.errors.len(), 0);
                assert_eq!(status_code(&response), 200);
                assert_eq!(batch.len(), 2);
                assert_eq!(batch.record(1).unwrap().data, "y");
                assert!(!batch.is_settled());
            }
            _ => panic!("an async batch was not detached"),
        }
    }
}

#[test]
fn rate_limited_batch() {
    let mut handler = ApiHandler::new(limiter(vec![("t", 1)]));
    let plan = handler.handle_push(PushRequest {
        records: vec![record("t", "a"), record("t", "b"), record("t", "c")],
        wait_for_send: Some(true),
    });
    let mut batch = match plan {
        PushPlan::Await(batch) => batch,
        _ => panic!("a sync batch was not awaited"),
    };
    assert_eq!(handler.screen_at(&mut batch, 0, Ok(1_000)), true);
    assert_eq!(handler.screen_at(&mut batch, 1, Ok(1_000)), false);
    assert_eq!(handler.screen_at(&mut batch, 2, Ok(1_000)), false);
    // a rejected record takes no delivery result
    assert_eq!(batch.complete(1, DeliveryResult::Delivered), false);
    assert_eq!(batch.complete(0, DeliveryResult::Delivered), true);
    let response = batch.response().unwrap();
    assert_eq!(response.status, "err");
    assert_eq!(
        items(&response),
        vec![
            (false, None),
            (true, Some(String::from("ratelimit"))),
            (true, Some(String::from("ratelimit"))),
        ]
    );
    assert_eq!(status_code(&response), 500);
}

#[test]
fn mixed_failure() {
    let mut handler = ApiHandler::new(limiter(vec![]));
    let plan = handler.handle_push(PushRequest {
        records: vec![record("t", "a"), record("u", "b")],
        wait_for_send: Some(true),
    });
    let mut batch = match plan {
        PushPlan::Await(batch) => batch,
        _ => panic!("a sync batch was not awaited"),
    };
    assert_eq!(handler.screen(&mut batch, 0), true);
    assert_eq!(handler.screen(&mut batch, 1), true);
    // the sends report back in the other order
    assert_eq!(batch.complete(1, failed("leader unavailable")), true);
    assert_eq!(batch.complete(0, DeliveryResult::Delivered), true);
    let response = batch.response().unwrap();
    assert_eq!(response.status, "err");
    assert_eq!(
        items(&response),
        vec![(false, None), (true, Some(String::from("leader unavailable")))]
    );
    assert_eq!(status_code(&response), 500);
}

#[test]
fn response_has_one_entry_for_each_record_in_request_order() {
    let mut handler = ApiHandler::new(limiter(vec![("slow", 2)]));
    let topics = ["a", "slow", "b", "slow", "slow", "c", "slow"];
    let records = topics.iter().map(|t| record(t, "x")).collect();
    let mut batch = match handler.handle_push(PushRequest {
        records,
        wait_for_send: Some(true),
    }) {
        PushPlan::Await(batch) => batch,
        _ => panic!("a sync batch was not awaited"),
    };
    let mut to_send = Vec::new();
    for i in 0..topics.len() {
        if handler.screen_at(&mut batch, i, Ok(77)) {
            to_send.push(i);
        }
    }
    assert_eq!(to_send, vec![0, 1, 2, 3, 5]);
    for i in to_send.iter().rev() {
        let result = if *i == 2 {
            failed("queue full")
        } else {
            DeliveryResult::Delivered
        };
        assert!(batch.complete(*i, result));
    }
    let response = batch.response().unwrap();
    assert_eq!(response.errors.len(), topics.len());
    assert_eq!(response.status, "err");
    assert_eq!(
        items(&response),
        vec![
            (false, None),
            (false, None),
            (true, Some(String::from("queue full"))),
            (false, None),
            (true, Some(String::from("ratelimit"))),
            (false, None),
            (true, Some(String::from("ratelimit"))),
        ]
    );
    let any_error = response.errors.iter().any(|e| e.error);
    assert_eq!(response.status == "ok", !any_error);
    for e in response.errors.iter() {
        assert_eq!(e.error, e.message.is_some());
    }
}

#[test]
fn a_limiter_failure_rejects_the_record() {
    let mut limit = limiter(vec![("t", 3)]);
    let mut batch = Request::new(vec![record("t", "a"), record("other", "b")]);
    assert_eq!(
        batch.screen_at(&mut limit, 0, Err(String::from("no clock"))),
        false
    );
    // a topic without a rule passes whatever the clock says
    assert_eq!(
        batch.screen_at(&mut limit, 1, Err(String::from("no clock"))),
        true
    );
    assert!(batch.complete(1, DeliveryResult::Delivered));
    let response = batch.response().unwrap();
    assert_eq!(
        items(&response),
        vec![(true, Some(String::from("ratelimit"))), (false, None)]
    );
}

#[test]
fn the_pipeline_takes_each_step_once() {
    let mut limit = limiter(vec![]);
    let mut batch = Request::new(vec![record("t", "a")]);
    // no result before the record was screened, none for a position outside
    assert_eq!(batch.complete(0, DeliveryResult::Delivered), false);
    assert_eq!(batch.complete(1, DeliveryResult::Delivered), false);
    assert_eq!(batch.screen(&mut limit, 1), false);
    assert_eq!(batch.screen(&mut limit, 0), true);
    assert_eq!(batch.screen(&mut limit, 0), false);
    assert!(batch.produce_records().is_none());
    assert_eq!(batch.complete(0, failed("timed out")), true);
    assert_eq!(batch.complete(0, DeliveryResult::Delivered), false);
    let entries = batch.produce_records().unwrap();
    assert_eq!(entries.len(), 1);
    assert_eq!(entries[0].error, true);
    assert_eq!(entries[0].message, Some(String::from("timed out")));
    assert!(batch.record(1).is_none());
}

#[test]
fn check_ratelimit_turns_anything_but_yes_into_a_rejection() {
    let mut limit = limiter(vec![("t", 1)]);
    let topic = String::from("t");
    assert!(Request::check_ratelimit_at(&mut limit, &topic, Ok(5)).is_ok());
    let rejected = Request::check_ratelimit_at(&mut limit, &topic, Ok(5)).unwrap_err();
    assert_eq!(rejected.idx, 0);
    assert!(matches!(rejected.outcome, Outcome::Rejected));
    let failed = Request::check_ratelimit_at(&mut limit, &topic, Err(String::from("x")));
    assert!(matches!(failed.unwrap_err().outcome, Outcome::Rejected));
    assert!(Request::check_ratelimit(&mut limit, &String::from("free")).is_ok());
}

#[test]
fn entries_report_their_outcomes() {
    let rejected = Request::new_ratelimit_error();
    assert_eq!(rejected.error, true);
    assert_eq!(rejected.message, Some(String::from("ratelimit")));
    let delivered = report(&Outcome::Admitted(DeliveryResult::Delivered));
    assert_eq!(delivered.error, false);
    assert_eq!(delivered.message, None);
    let broken = report(&Outcome::Admitted(failed("broker down")));
    assert_eq!(broken.error, true);
    assert_eq!(broken.message, Some(String::from("broker down")));
    let again = report(&Outcome::Rejected);
    assert_eq!(again.message, Some(String::from("ratelimit")));
}

#[test]
fn status_follows_the_entries() {
    let ok = PushResponse::from_items(vec![
        PushResponseError { error: false, message: None },
        PushResponseError { error: false, message: None },
    ]);
    assert_eq!(ok.status, "ok");
    assert_eq!(ok.errors.len(), 2);
    let err = PushResponse::from_items(vec![
        PushResponseError { error: false, message: None },
        PushResponseError { error: true, message: Some(String::from("m")) },
    ]);
    assert_eq!(err.status, "err");
    let none = PushResponse::from_items(vec![]);
    assert_eq!(none.status, "ok");
    let empty = PushResponse::empty_ok();
    assert_eq!(empty.status, "ok");
    assert!(empty.errors.is_empty());
}

#[test]
fn send_timeout_is_a_tenth_of_a_second() {
    assert_eq!(SEND_TIMEOUT_MS, 100);
}

#[test]
fn push_is_framed_by_status_and_mode() {
    let ok = PushResponse::empty_ok();
    let reply = push(&ok, Some(true), 499);
    assert_eq!(reply.status_code, 200);
    assert_eq!(reply.labels, vec![String::from("200"), String::from("push/sync")]);
    assert_eq!(reply.slow, false);
    let err = PushResponse::from_items(vec![PushResponseError {
        error: true,
        message: Some(String::from("ratelimit")),
    }]);
    let reply = push(&err, None, 500);
    assert_eq!(reply.status_code, 500);
    assert_eq!(reply.labels, vec![String::from("500"), String::from("push/async")]);
    assert_eq!(reply.slow, true);
    let odd = PushResponse { status: String::from("okay"), errors: vec![] };
    assert_eq!(status_code(&odd), 500);
    assert_eq!(method_label(Some(true)), "push/sync");
    assert_eq!(method_label(Some(false)), "push/async");
    assert_eq!(method_label(None), "push/async");
}

#[test]
fn request_ids_are_random_uuids() {
    let id = generate_request_id();
    assert_eq!(id.len(), 36);
    let bytes = id.as_bytes();
    for (i, b) in bytes.iter().enumerate() {
        if i == 8 || i == 13 || i == 18 || i == 23 {
            assert_eq!(*b, b'-');
        } else {
            assert!(b.is_ascii_digit() || (b'a'..=b'f').contains(b));
        }
    }
    assert_eq!(bytes[14], b'4');
    assert!([b'8', b'9', b'a', b'b'].contains(&bytes[19]));
    assert_ne!(generate_request_id(), id);
}

#[test]
fn a_rejection_is_counted_under_its_topic() {
    let updates = Request::count_rejection(&String::from("t"));
    assert_eq!(updates.len(), 1);
    assert_eq!(updates[0].metric, Metric::RatelimitMessagesCount);
    assert_eq!(updates[0].labels, vec![String::from("t")]);
    assert_eq!(updates[0].change, Change::Inc);
}
