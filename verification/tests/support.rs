use rust_arango_trigger::deserialize::LineSplitter;
use rust_arango_trigger::{Connection, Trigger, TriggerAuthentication, TriggerConfig};

#[test]
fn authorization_header_is_basic_base64() {
    let trigger = Trigger::new("http://localhost:8529", "db");
    let auth = TriggerAuthentication::new("user", "password");
    // base64("user:password")
    assert_eq!(trigger.get_authorization_value(&auth), "Basic dXNlcjpwYXNzd29yZA==");
    let auth = TriggerAuthentication::new("", "");
    assert_eq!(trigger.get_authorization_value(&auth), "Basic Og==");
}

#[test]
fn uri_building_joins_host_database_and_endpoint() {
    let trigger = Trigger::new("http://localhost:8529", "alchemy");
    assert_eq!(
        trigger.get_uri("/_api/replication/logger-state"),
        "http://localhost:8529/_db/alchemy/_api/replication/logger-state"
    );
    let mut trigger = trigger;
    trigger.advance_cursor("42");
    assert_eq!(trigger.follow_query(), "/_api/replication/logger-follow?from=42");
}

#[test]
fn line_splitter_reassembles_records_across_chunks() {
    let mut splitter = LineSplitter::new();
    splitter.push_chunk(b"{\"a\":1}\n{\"b\"");
    assert_eq!(splitter.next_line().as_deref(), Some(b"{\"a\":1}".as_slice()));
    assert_eq!(splitter.next_line(), None);
    splitter.push_chunk(b":2}\n");
    assert_eq!(splitter.next_line().as_deref(), Some(b"{\"b\":2}".as_slice()));
    assert_eq!(splitter.next_line(), None);
    splitter.push_chunk(b"tail");
    assert_eq!(splitter.finish().as_deref(), Some(b"tail".as_slice()));
    assert_eq!(splitter.finish(), None);
}

#[test]
fn default_connection_points_at_the_local_instance() {
    let conn = Connection::default();
    assert_eq!(conn.host, "http://localhost:8529/");
    assert_eq!(conn.database.as_deref(), Some("_system"));
    assert_eq!(conn.collections.as_deref(), Some(&[] as &[String]));
    conn.subscribe();
    let conn = Connection::default();
    conn.unsubscribe(vec!["users"]);
    let conn = Connection::default();
    conn.start();
    let conn = Connection::default();
    conn.stop();
}

#[test]
fn setup_trigger() {
    let mut trigger = Trigger::new("http://localhost:8529", "triggers");
    let configs = vec![
        TriggerConfig::new("users"),
        TriggerConfig::new_with_events("users2", vec!["insert/update"]),
        TriggerConfig::new_with_events_and_keys("users2", vec!["insert/update"], vec!["252525"]),
    ];
    for _config in &configs {
        trigger.subscribe(rust_arango_trigger::HandlerEvent::InsertOrReplace);
    }
}

#[test]
fn line_splitter_handles_empty_records_and_boundaries() {
    let mut splitter = LineSplitter::new();
    splitter.push_chunk(b"\n");
    assert_eq!(splitter.next_line().as_deref(), Some(b"".as_slice()));
    assert_eq!(splitter.next_line(), None);
    splitter.push_chunk(b"a");
    splitter.push_chunk(b"\n");
    assert_eq!(splitter.next_line().as_deref(), Some(b"a".as_slice()));
    assert_eq!(splitter.finish(), None);
}
