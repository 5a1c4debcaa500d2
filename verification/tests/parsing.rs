use rust_arango_trigger::api::LogType;
use rust_arango_trigger::errors::{ArangoDBError, Error, Io, Kind};
use rust_arango_trigger::utils::{find_str, get_string_between, get_string_until, parse_code};

#[test]
fn string_between_takes_a_window() {
    let data = "My car is red";
    assert_eq!(get_string_between(data, 3, 6), "car is");
    assert_eq!(get_string_between(data, 0, 2), "My");
    assert_eq!(get_string_between(data, 10, 100), "red");
    assert_eq!(get_string_between(data, 50, 3), "");
}

#[test]
fn string_until_stops_at_the_character() {
    let data = "My car is red";
    assert_eq!(get_string_until(data, 3, 'e'), "car is r");
    assert_eq!(get_string_until(data, 0, 'z'), "My car is red");
    assert_eq!(get_string_until(data, 3, 'c'), "");
    let tid_field = r#"T1","cname":"users"}"#;
    assert_eq!(get_string_until(tid_field, 0, '"'), "T1");
}

#[test]
fn find_str_gives_first_occurrence() {
    assert_eq!(find_str("abcabc", "bc"), Some(1));
    assert_eq!(find_str("abcabc", "cab"), Some(2));
    assert_eq!(find_str("abcabc", "zz"), None);
    assert_eq!(find_str("", ""), Some(0));
    assert_eq!(find_str(r#"{"type":2300}"#, "\"type\":"), Some(1));
}

#[test]
fn parse_code_wants_exactly_four_digits() {
    assert_eq!(parse_code("2300"), Some(2300));
    assert_eq!(parse_code("0000"), Some(0));
    assert_eq!(parse_code("9999"), Some(9999));
    assert_eq!(parse_code("230"), None);
    assert_eq!(parse_code("23001"), None);
    assert_eq!(parse_code("2_00"), None);
    assert_eq!(parse_code("+230"), None);
    assert_eq!(parse_code(""), None);
}

#[test]
fn log_type_codes_round_trip() {
    assert_eq!(LogType::try_from(1100), Some(LogType::CreateDatabase));
    assert_eq!(LogType::try_from(1101), Some(LogType::DropDatabase));
    assert_eq!(LogType::try_from(2000), Some(LogType::CreateCollection));
    assert_eq!(LogType::try_from(2001), Some(LogType::DropCollection));
    assert_eq!(LogType::try_from(2002), Some(LogType::RenameCollection));
    assert_eq!(LogType::try_from(2003), Some(LogType::ChangeCollection));
    assert_eq!(LogType::try_from(2004), Some(LogType::TruncateCollection));
    assert_eq!(LogType::try_from(2100), Some(LogType::CreateIndex));
    assert_eq!(LogType::try_from(2101), Some(LogType::DropIndex));
    assert_eq!(LogType::try_from(2110), Some(LogType::CreateView));
    assert_eq!(LogType::try_from(2111), Some(LogType::DropView));
    assert_eq!(LogType::try_from(2112), Some(LogType::ChangeView));
    assert_eq!(LogType::try_from(2200), Some(LogType::StartTransaction));
    assert_eq!(LogType::try_from(2201), Some(LogType::CommitTransaction));
    assert_eq!(LogType::try_from(2202), Some(LogType::AbortTransaction));
    assert_eq!(LogType::try_from(2300), Some(LogType::InsertOrReplaceDocument));
    assert_eq!(LogType::try_from(2302), Some(LogType::RemoveDocument));
    assert_eq!(LogType::try_from(2301), None);
    assert_eq!(LogType::try_from(0), None);
    assert_eq!(LogType::try_from(9999), None);
}

#[test]
fn error_descriptions_match_their_kinds() {
    assert_eq!(Error::new(Kind::Http).description(), "HTTP client error");
    assert_eq!(
        Error::new(Kind::ArangoDB(ArangoDBError::HttpError(404))).description(),
        "ArangoDB HTTP API error: 404"
    );
    assert_eq!(
        Error::new(Kind::ArangoDB(ArangoDBError::HttpError(500))).description(),
        "ArangoDB HTTP API error: 500"
    );
    assert_eq!(
        Error::new(Kind::Io(Io::Serialize)).description(),
        "Error while serializing/deserializing data"
    );
    assert_eq!(Error::new(Kind::Io(Io::Other)).description(), "I/O Error");
}

#[test]
fn error_keeps_its_cause() {
    let e = Error::new(Kind::Http).with("connection refused".to_string());
    assert_eq!(e.kind, Kind::Http);
    assert_eq!(e.cause.as_deref(), Some("connection refused"));
}
