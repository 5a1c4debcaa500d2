use rust_arango_trigger::{HandlerEvent, TransactionOperation, Trigger};

fn trigger_at(tick: &str) -> Trigger {
    let mut trigger = Trigger::new("http://localhost:8529", "db");
    trigger.advance_cursor(tick);
    trigger
}

fn lines(raw: &[&str]) -> Vec<String> {
    raw.iter().map(|s| s.to_string()).collect()
}

#[test]
fn standalone_insert_dispatches_at_once() {
    let mut trigger = trigger_at("100");
    let global = trigger.subscribe(HandlerEvent::InsertOrReplace);
    let body = lines(&[r#"{"tick":"150","type":2300,"tid":"0","cname":"users","data":{"_key":"u1","name":"Ada"}}"#]);
    let outcome = trigger.run_cycle(200, Some("200"), &body).unwrap();
    assert!(!outcome.idle);
    assert_eq!(outcome.dispatches.len(), 1);
    let d = &outcome.dispatches[0];
    match &d.op {
        TransactionOperation::InsertOrReplaceDocument(doc) => {
            assert_eq!(doc.collection, "users");
            let expected: serde_json::Value =
                serde_json::from_str(r#"{"_key":"u1","name":"Ada"}"#).unwrap();
            assert_eq!(doc.data, expected);
        }
        other => panic!("unexpected operation: {:?}", other),
    }
    assert_eq!(d.subscriptions, vec![global]);
    assert_eq!(trigger.current_tick().as_str(), "200");
}

#[test]
fn committed_transaction_dispatches_both_ops_in_order() {
    let mut trigger = trigger_at("100");
    let ins = trigger.subscribe(HandlerEvent::InsertOrReplace);
    let rem = trigger.subscribe(HandlerEvent::Remove);
    let body = lines(&[
        r#"{"tick":"151","type":2200,"tid":"T1"}"#,
        r#"{"tick":"152","type":2300,"tid":"T1","cname":"users","data":{"_key":"u2"}}"#,
        r#"{"tick":"153","type":2302,"tid":"T1","cname":"users","data":{"_key":"u2"}}"#,
        r#"{"tick":"154","type":2201,"tid":"T1"}"#,
    ]);
    let outcome = trigger.run_cycle(200, Some("200"), &body).unwrap();
    assert_eq!(outcome.dispatches.len(), 2);
    let expected: serde_json::Value = serde_json::from_str(r#"{"_key":"u2"}"#).unwrap();
    match &outcome.dispatches[0].op {
        TransactionOperation::InsertOrReplaceDocument(doc) => {
            assert_eq!(doc.collection, "users");
            assert_eq!(doc.data, expected);
        }
        other => panic!("unexpected first operation: {:?}", other),
    }
    match &outcome.dispatches[1].op {
        TransactionOperation::RemoveDocument(doc) => {
            assert_eq!(doc.collection, "users");
            assert_eq!(doc.data, expected);
        }
        other => panic!("unexpected second operation: {:?}", other),
    }
    assert_eq!(outcome.dispatches[0].subscriptions, vec![ins]);
    assert_eq!(outcome.dispatches[1].subscriptions, vec![rem]);
    assert_eq!(trigger.current_tick().as_str(), "200");
}

#[test]
fn aborted_transaction_dispatches_nothing() {
    let mut trigger = trigger_at("100");
    trigger.subscribe(HandlerEvent::InsertOrReplace);
    trigger.subscribe(HandlerEvent::Remove);
    let body = lines(&[
        r#"{"tick":"151","type":2200,"tid":"T1"}"#,
        r#"{"tick":"152","type":2300,"tid":"T1","cname":"users","data":{"_key":"u2"}}"#,
        r#"{"tick":"153","type":2302,"tid":"T1","cname":"users","data":{"_key":"u2"}}"#,
        r#"{"tick":"154","type":2202,"tid":"T1"}"#,
    ]);
    let outcome = trigger.run_cycle(200, Some("200"), &body).unwrap();
    assert_eq!(outcome.dispatches.len(), 0);
}

#[test]
fn interleaved_transactions_dispatch_in_commit_order() {
    let mut trigger = trigger_at("0");
    trigger.subscribe(HandlerEvent::InsertOrReplace);
    let body = lines(&[
        r#"{"tick":"1","type":2200,"tid":"A"}"#,
        r#"{"tick":"2","type":2200,"tid":"B"}"#,
        r#"{"tick":"3","type":2300,"tid":"A","cname":"c","data":{"x":1}}"#,
        r#"{"tick":"4","type":2300,"tid":"B","cname":"c","data":{"y":1}}"#,
        r#"{"tick":"5","type":2201,"tid":"B"}"#,
        r#"{"tick":"6","type":2201,"tid":"A"}"#,
    ]);
    let outcome = trigger.run_cycle(200, Some("6"), &body).unwrap();
    assert_eq!(outcome.dispatches.len(), 2);
    let expect_y: serde_json::Value = serde_json::from_str(r#"{"y":1}"#).unwrap();
    let expect_x: serde_json::Value = serde_json::from_str(r#"{"x":1}"#).unwrap();
    match &outcome.dispatches[0].op {
        TransactionOperation::InsertOrReplaceDocument(doc) => assert_eq!(doc.data, expect_y),
        other => panic!("unexpected first operation: {:?}", other),
    }
    match &outcome.dispatches[1].op {
        TransactionOperation::InsertOrReplaceDocument(doc) => assert_eq!(doc.data, expect_x),
        other => panic!("unexpected second operation: {:?}", other),
    }
}

#[test]
fn idle_poll_leaves_cursor_and_dispatches_nothing() {
    let mut trigger = trigger_at("100");
    trigger.subscribe(HandlerEvent::InsertOrReplace);
    let body: Vec<String> = Vec::new();
    let outcome = trigger.run_cycle(204, Some("0"), &body).unwrap();
    assert!(outcome.idle);
    assert_eq!(outcome.dispatches.len(), 0);
    assert_eq!(trigger.current_tick().as_str(), "100");
}

#[test]
fn unknown_type_code_is_skipped_without_error() {
    let mut trigger = trigger_at("100");
    let global = trigger.subscribe(HandlerEvent::InsertOrReplace);
    let body = lines(&[
        r#"{"tick":"150","type":9999,"tid":"0","cname":"users","data":{"_key":"u1"}}"#,
        r#"{"tick":"151","type":2300,"tid":"0","cname":"users","data":{"_key":"u1","name":"Ada"}}"#,
    ]);
    let outcome = trigger.run_cycle(200, Some("200"), &body).unwrap();
    assert_eq!(outcome.dispatches.len(), 1);
    assert_eq!(outcome.dispatches[0].subscriptions, vec![global]);
}
