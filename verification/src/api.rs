use vstd::prelude::*;

verus! {

/// Declares `serde_json::Value` so the crate can carry decoded document
/// payloads through without looking inside them.
#[verifier::external_type_specification]
#[verifier::external_body]
pub struct ExJsonValue(serde_json::Value);

/// Relies on `serde_json::Value`'s derived `Clone`: a clone is a copy of the
/// whole value.
pub assume_specification[ <serde_json::Value as Clone>::clone ](v: &serde_json::Value) -> (r:
    serde_json::Value)
    ensures
        r == *v,
;

/// All log record types of the ArangoDB replication API that this crate knows.
#[derive(Clone, Copy, Debug, PartialEq, Eq, Structural)]
pub enum LogType {
    /// Create a database
    CreateDatabase,
    /// Drop a database
    DropDatabase,
    /// Create a collection
    CreateCollection,
    /// Drop a collection
    DropCollection,
    /// Rename a collection
    RenameCollection,
    /// Change collection properties
    ChangeCollection,
    /// Truncate a collection
    TruncateCollection,
    /// Create an index
    CreateIndex,
    /// Drop an index
    DropIndex,
    /// Create a view
    CreateView,
    /// Drop a view
    DropView,
    /// Change view properties (including the name)
    ChangeView,
    /// Mark the beginning of a transaction
    StartTransaction,
    /// Mark the successful end of a transaction
    CommitTransaction,
    /// Mark the abortion of a transaction
    AbortTransaction,
    /// Insert or replace a document
    InsertOrReplaceDocument,
    /// Remove a document
    RemoveDocument,
}

/// The log type a numeric type code stands for; codes outside the known set
/// stand for nothing and their records are skipped.
pub open spec fn spec_log_type(v: u16) -> Option<LogType> {
    if v == 1100 {
        Some(LogType::CreateDatabase)
    } else if v == 1101 {
        Some(LogType::DropDatabase)
    } else if v == 2000 {
        Some(LogType::CreateCollection)
    } else if v == 2001 {
        Some(LogType::DropCollection)
    } else if v == 2002 {
        Some(LogType::RenameCollection)
    } else if v == 2003 {
        Some(LogType::ChangeCollection)
    } else if v == 2004 {
        Some(LogType::TruncateCollection)
    } else if v == 2100 {
        Some(LogType::CreateIndex)
    } else if v == 2101 {
        Some(LogType::DropIndex)
    } else if v == 2110 {
        Some(LogType::CreateView)
    } else if v == 2111 {
        Some(LogType::DropView)
    } else if v == 2112 {
        Some(LogType::ChangeView)
    } else if v == 2200 {
        Some(LogType::StartTransaction)
    } else if v == 2201 {
        Some(LogType::CommitTransaction)
    } else if v == 2202 {
        Some(LogType::AbortTransaction)
    } else if v == 2300 {
        Some(LogType::InsertOrReplaceDocument)
    } else if v == 2302 {
        Some(LogType::RemoveDocument)
    } else {
        None
    }
}

impl LogType {
    /// Maps a numeric type code to its log type, if the code is a known one.
    pub fn try_from(v: u16) -> (r: Option<LogType>)
        ensures
            r == spec_log_type(v),
    {
        match v {
            1100 => Some(LogType::CreateDatabase),
            1101 => Some(LogType::DropDatabase),
            2000 => Some(LogType::CreateCollection),
            2001 => Some(LogType::DropCollection),
            2002 => Some(LogType::RenameCollection),
            2003 => Some(LogType::ChangeCollection),
            2004 => Some(LogType::TruncateCollection),
            2100 => Some(LogType::CreateIndex),
            2101 => Some(LogType::DropIndex),
            2110 => Some(LogType::CreateView),
            2111 => Some(LogType::DropView),
            2112 => Some(LogType::ChangeView),
            2200 => Some(LogType::StartTransaction),
            2201 => Some(LogType::CommitTransaction),
            2202 => Some(LogType::AbortTransaction),
            2300 => Some(LogType::InsertOrReplaceDocument),
            2302 => Some(LogType::RemoveDocument),
            _ => None,
        }
    }
}

/// One document mutation taken from a replication log record: the collection
/// it touches and the document payload, which this crate hands through without
/// reading it.
#[derive(Debug, Clone, PartialEq)]
pub struct DocumentOperation {
    /// Name of the collection the document belongs to.
    pub collection: String,
    /// The document payload, opaque to this crate.
    pub data: serde_json::Value,
}

/// The collection name a document-operation record decodes to, or nothing when
/// the record is not a well-formed document-operation object. The decoded text
/// is a function of the record text alone.
pub uninterp spec fn doc_record_collection(line: Seq<char>) -> Option<Seq<char>>;

/// Relies on `serde_json::from_str` and `serde_json::Value`'s accessors: the
/// decode succeeds exactly on well-formed JSON objects carrying a string
/// `cname` field and a `data` field, yields the same result for the same text,
/// and `get`/`as_str` hand back the named field and its string contents.
#[verifier::external_body]
pub(crate) fn decode_document_operation(line: &str) -> (r: Option<DocumentOperation>)
    ensures
        r is Some <==> doc_record_collection(line@) is Some,
        r matches Some(op) ==> Some(op.collection@) == doc_record_collection(line@),
{
    let v: serde_json::Value = serde_json::from_str(line).ok()?;
    let collection = v.get("cname")?.as_str()?.to_string();
    let data = v.get("data")?.clone();
    Some(DocumentOperation { collection, data })
}

/// The last log tick the logger-state response body reports, or nothing when
/// the body is not a well-formed logger-state object. The tick text is a
/// function of the body text alone.
pub uninterp spec fn logger_state_tick(body: Seq<char>) -> Option<Seq<char>>;

/// Relies on `serde_json::from_str` and `serde_json::Value`'s accessors: the
/// decode succeeds exactly on well-formed JSON carrying a string
/// `state.lastLogTick` field, yields the same result for the same text, and
/// `get`/`as_str` hand back the named field and its string contents.
#[verifier::external_body]
pub(crate) fn decode_logger_state(body: &str) -> (r: Option<String>)
    ensures
        r is Some <==> logger_state_tick(body@) is Some,
        r matches Some(t) ==> Some(t@) == logger_state_tick(body@),
{
    let v: serde_json::Value = serde_json::from_str(body).ok()?;
    let tick = v.get("state")?.get("lastLogTick")?.as_str()?.to_string();
    Some(tick)
}

} // verus!
