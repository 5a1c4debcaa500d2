use rust_arango_trigger::{ArangoDBError, FollowAction, HandlerEvent, Io, Kind, Trigger};

fn trigger_at(tick: &str) -> Trigger {
    let mut trigger = Trigger::new("http://localhost:8529", "db");
    trigger.advance_cursor(tick);
    trigger
}

#[test]
fn new_trigger_starts_at_the_sentinel_tick() {
    let trigger = Trigger::new("http://localhost:8529", "db");
    assert_eq!(trigger.current_tick().as_str(), "0");
}

#[test]
fn init_stores_the_last_log_tick() {
    let mut trigger = Trigger::new("http://localhost:8529", "db");
    let body = r#"{"state":{"running":true,"lastLogTick":"155","lastUncommittedLogTick":"158","totalEvents":120,"time":"2024-01-01T00:00:00Z"}}"#;
    trigger.apply_init_response(200, body).unwrap();
    assert_eq!(trigger.current_tick().as_str(), "155");
}

#[test]
fn init_rejects_bad_status_and_bad_body() {
    let mut trigger = Trigger::new("http://localhost:8529", "db");
    let body = r#"{"state":{"lastLogTick":"155"}}"#;
    let e = trigger.apply_init_response(401, body).unwrap_err();
    assert_eq!(e.kind, Kind::ArangoDB(ArangoDBError::HttpError(401)));
    assert_eq!(trigger.current_tick().as_str(), "0");
    let e = trigger.apply_init_response(200, "not json").unwrap_err();
    assert_eq!(e.kind, Kind::Io(Io::Serialize));
    let e = trigger.apply_init_response(200, r#"{"state":{}}"#).unwrap_err();
    assert_eq!(e.kind, Kind::Io(Io::Serialize));
}

#[test]
fn follow_decision_covers_every_header_shape() {
    let trigger = trigger_at("100");
    assert_eq!(trigger.follow_decision(200, Some("0")).unwrap(), FollowAction::Idle);
    assert_eq!(trigger.follow_decision(204, Some("0")).unwrap(), FollowAction::Idle);
    assert_eq!(trigger.follow_decision(200, None).unwrap(), FollowAction::Idle);
    assert_eq!(trigger.follow_decision(200, Some("100")).unwrap(), FollowAction::SkipBody);
    assert_eq!(trigger.follow_decision(200, Some("101")).unwrap(), FollowAction::ProcessBody);
    let e = trigger.follow_decision(503, Some("101")).unwrap_err();
    assert_eq!(e.kind, Kind::ArangoDB(ArangoDBError::HttpError(503)));
}

#[test]
fn failed_cycle_does_not_advance_the_cursor() {
    let mut trigger = trigger_at("100");
    trigger.subscribe(HandlerEvent::InsertOrReplace);
    let body = vec!["no type field here".to_string()];
    let e = trigger.run_cycle(200, Some("200"), &body).unwrap_err();
    assert_eq!(e.kind, Kind::Io(Io::Serialize));
    assert_eq!(trigger.current_tick().as_str(), "100");
}

#[test]
fn equal_header_skips_the_body() {
    let mut trigger = trigger_at("100");
    trigger.subscribe(HandlerEvent::InsertOrReplace);
    let body = vec![
        r#"{"tick":"90","type":2300,"tid":"0","cname":"users","data":{"k":1}}"#.to_string(),
    ];
    let outcome = trigger.run_cycle(200, Some("100"), &body).unwrap();
    assert!(!outcome.idle);
    assert_eq!(outcome.dispatches.len(), 0);
    assert_eq!(trigger.current_tick().as_str(), "100");
}

#[test]
fn process_line_rejects_malformed_records() {
    let mut trigger = trigger_at("100");
    let e = trigger.process_line("{}").unwrap_err();
    assert_eq!(e.kind, Kind::Io(Io::Serialize));
    let e = trigger.process_line(r#"{"type":23}"#).unwrap_err();
    assert_eq!(e.kind, Kind::Io(Io::Serialize));
    let e = trigger.process_line(r#"{"type":2200}"#).unwrap_err();
    assert_eq!(e.kind, Kind::Io(Io::Serialize));
    let e = trigger
        .process_line(r#"{"type":2300,"tid":"0","data":{"k":1}}"#)
        .unwrap_err();
    assert_eq!(e.kind, Kind::Io(Io::Serialize));
}

#[test]
fn document_op_for_unknown_transaction_is_dropped() {
    let mut trigger = trigger_at("100");
    trigger.subscribe(HandlerEvent::InsertOrReplace);
    let d = trigger
        .process_line(r#"{"type":2300,"tid":"T9","cname":"users","data":{"k":1}}"#)
        .unwrap();
    assert_eq!(d.len(), 0);
    // The record was dropped, so a later commit of that id dispatches nothing.
    let d = trigger.process_line(r#"{"type":2201,"tid":"T9"}"#).unwrap();
    assert_eq!(d.len(), 0);
}

#[test]
fn commit_without_transaction_is_a_no_op() {
    let mut trigger = trigger_at("100");
    let d = trigger.process_line(r#"{"type":2201,"tid":"missing"}"#).unwrap();
    assert_eq!(d.len(), 0);
    let d = trigger.process_line(r#"{"type":2202,"tid":"missing"}"#).unwrap();
    assert_eq!(d.len(), 0);
}

#[test]
fn restarting_a_transaction_discards_its_operations() {
    let mut trigger = trigger_at("100");
    trigger.subscribe(HandlerEvent::InsertOrReplace);
    trigger.process_line(r#"{"type":2200,"tid":"T1"}"#).unwrap();
    trigger
        .process_line(r#"{"type":2300,"tid":"T1","cname":"users","data":{"k":1}}"#)
        .unwrap();
    // A replayed start record overwrites the open transaction.
    trigger.process_line(r#"{"type":2200,"tid":"T1"}"#).unwrap();
    let d = trigger.process_line(r#"{"type":2201,"tid":"T1"}"#).unwrap();
    assert_eq!(d.len(), 0);
}

#[test]
fn transaction_spanning_two_cycles_survives() {
    let mut trigger = trigger_at("100");
    let global = trigger.subscribe(HandlerEvent::InsertOrReplace);
    let first = vec![
        r#"{"tick":"151","type":2200,"tid":"T1"}"#.to_string(),
        r#"{"tick":"152","type":2300,"tid":"T1","cname":"users","data":{"k":1}}"#.to_string(),
    ];
    let outcome = trigger.run_cycle(200, Some("152"), &first).unwrap();
    assert_eq!(outcome.dispatches.len(), 0);
    assert_eq!(trigger.current_tick().as_str(), "152");
    let second = vec![r#"{"tick":"153","type":2201,"tid":"T1"}"#.to_string()];
    let outcome = trigger.run_cycle(200, Some("153"), &second).unwrap();
    assert_eq!(outcome.dispatches.len(), 1);
    assert_eq!(outcome.dispatches[0].subscriptions, vec![global]);
    assert_eq!(trigger.current_tick().as_str(), "153");
}

#[test]
fn schema_events_are_no_ops() {
    let mut trigger = trigger_at("100");
    trigger.subscribe(HandlerEvent::InsertOrReplace);
    let body = vec![
        r#"{"tick":"150","type":2000,"tid":"0","cname":"users"}"#.to_string(),
        r#"{"tick":"151","type":2100,"tid":"0"}"#.to_string(),
        r#"{"tick":"152","type":1100,"tid":"0"}"#.to_string(),
    ];
    let outcome = trigger.run_cycle(200, Some("152"), &body).unwrap();
    assert_eq!(outcome.dispatches.len(), 0);
}

#[test]
fn split_stream_dispatches_like_the_merged_stream() {
    // The same records, consumed as two follow cycles or as one, produce the
    // same dispatches in the same order.
    let all = [
        r#"{"tick":"151","type":2200,"tid":"T1"}"#,
        r#"{"tick":"152","type":2300,"tid":"T1","cname":"users","data":{"k":1}}"#,
        r#"{"tick":"153","type":2300,"tid":"0","cname":"users","data":{"k":2}}"#,
        r#"{"tick":"154","type":2302,"tid":"T1","cname":"users","data":{"k":3}}"#,
        r#"{"tick":"155","type":2201,"tid":"T1"}"#,
    ];
    let to_lines = |raw: &[&str]| raw.iter().map(|s| s.to_string()).collect::<Vec<String>>();

    let mut split = trigger_at("100");
    split.subscribe(HandlerEvent::InsertOrReplace);
    split.subscribe(HandlerEvent::Remove);
    let first = split.run_cycle(200, Some("153"), &to_lines(&all[..3])).unwrap();
    let second = split.run_cycle(200, Some("155"), &to_lines(&all[3..])).unwrap();

    let mut merged = trigger_at("100");
    merged.subscribe(HandlerEvent::InsertOrReplace);
    merged.subscribe(HandlerEvent::Remove);
    let whole = merged.run_cycle(200, Some("155"), &to_lines(&all)).unwrap();

    let split_ops: Vec<_> = first
        .dispatches
        .iter()
        .chain(second.dispatches.iter())
        .map(|d| (&d.op, &d.subscriptions))
        .collect();
    let merged_ops: Vec<_> = whole.dispatches.iter().map(|d| (&d.op, &d.subscriptions)).collect();
    assert_eq!(split_ops, merged_ops);
    assert_eq!(split.current_tick(), merged.current_tick());
}
