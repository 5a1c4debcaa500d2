use vstd::prelude::*;
use vstd::string::{StrSliceExecFns, StringExecFns, StringSliceAdditionalSpecFns};
use vstd::utf8::encode_utf8;

use crate::api::{
    decode_document_operation, decode_logger_state, doc_record_collection, logger_state_tick,
    spec_log_type, DocumentOperation, LogType,
};
use crate::assoc::{
    assoc_find, assoc_index_of, lemma_assoc_push, lemma_assoc_remove, lemma_assoc_update,
    unique_keys,
};
use crate::errors::{ArangoDBError, Error, Io, Kind, Result};
use crate::events::{HandlerEvent, SubscriptionManager};
use crate::utils::{
    chars_between, chars_from, find_spec, find_str, get_string_between, get_string_until,
    lemma_find_spec_props, match_at, parse_code, spec_parse_code, take_until,
};

verus! {

/// Basic HTTP authentication data for the ArangoDB server.
pub struct TriggerAuthentication {
    user: String,
    password: String,
}

impl TriggerAuthentication {
    /// The user name held.
    pub closed spec fn spec_user(&self) -> Seq<char> {
        self.user@
    }

    /// The password held.
    pub closed spec fn spec_password(&self) -> Seq<char> {
        self.password@
    }

    /// Creates a new instance of [`TriggerAuthentication`] holding data for
    /// HTTP Basic authentication against the ArangoDB server.
    pub fn new(user: &str, password: &str) -> (r: Self)
        ensures
            r.spec_user() == user@,
            r.spec_password() == password@,
    {
        TriggerAuthentication { user: user.to_owned(), password: password.to_owned() }
    }
}

/// A document mutation that can belong to a transaction; one with transaction
/// id `"0"` belongs to none and is dispatched the moment it is parsed.
#[derive(Debug, PartialEq)]
pub enum TransactionOperation {
    /// Insert or replace a document.
    InsertOrReplaceDocument(DocumentOperation),
    /// Remove a document.
    RemoveDocument(DocumentOperation),
}

impl TransactionOperation {
    /// The event kind this operation dispatches as.
    pub open spec fn event(&self) -> HandlerEvent {
        match self {
            TransactionOperation::InsertOrReplaceDocument(_) => HandlerEvent::InsertOrReplace,
            TransactionOperation::RemoveDocument(_) => HandlerEvent::Remove,
        }
    }

    /// The document operation carried.
    pub open spec fn document(&self) -> DocumentOperation {
        match self {
            TransactionOperation::InsertOrReplaceDocument(d) => *d,
            TransactionOperation::RemoveDocument(d) => *d,
        }
    }
}

/// An open transaction: the operations seen for it so far, in arrival order.
/// Kept until its commit record (operations dispatched) or its abort record
/// (operations discarded).
pub struct Transaction {
    operations: Vec<TransactionOperation>,
}

impl Transaction {
    /// The buffered operations, in arrival order.
    pub closed spec fn ops(&self) -> Seq<TransactionOperation> {
        self.operations@
    }

    /// Creates a new empty [`Transaction`].
    pub fn empty() -> (r: Self)
        ensures
            r.ops() == Seq::<TransactionOperation>::empty(),
    {
        Transaction { operations: Vec::new() }
    }
}

/// One document operation due for dispatch, paired with the handles of the
/// subscriptions that must fire for it, in dispatch order.
#[derive(Debug)]
pub struct Dispatch {
    /// The operation to hand to each handler.
    pub op: TransactionOperation,
    /// Subscription handles to fire, global ones first, then collection-scoped
    /// ones, each group in registration order.
    pub subscriptions: Vec<u64>,
}

/// What a follow cycle does after its HTTP response has been examined.
#[derive(Clone, Copy, Debug, PartialEq, Eq, Structural)]
pub enum FollowAction {
    /// The server reported no progress: wait briefly and poll again, leaving
    /// the cursor alone.
    Idle,
    /// The cursor does not move, so the body holds nothing new: skip it.
    SkipBody,
    /// New records were included: consume the body, then advance the cursor.
    ProcessBody,
}

/// What one whole follow cycle produced.
#[derive(Debug)]
pub struct CycleOutcome {
    /// True when the server reported no progress; the caller should pause
    /// before polling again.
    pub idle: bool,
    /// Every dispatch the cycle's records produced, in dispatch order.
    pub dispatches: Vec<Dispatch>,
}

/// ArangoDB event trigger: holds the server details, the tick cursor, the
/// open transactions and the registered subscriptions, and turns replication
/// log records into dispatches.
pub struct Trigger {
    host: String,
    database: String,
    auth: Option<TriggerAuthentication>,
    last_log_tick: String,
    transactions: Vec<(String, Transaction)>,
    subscriptions: SubscriptionManager,
}

impl Trigger {
    /// The host this trigger connects to.
    pub closed spec fn spec_host(&self) -> Seq<char> {
        self.host@
    }

    /// The database this trigger follows.
    pub closed spec fn spec_database(&self) -> Seq<char> {
        self.database@
    }

    /// The authentication data held, if any.
    pub closed spec fn spec_auth(&self) -> Option<TriggerAuthentication> {
        self.auth
    }

    /// The current cursor: the last log tick this trigger has consumed.
    pub closed spec fn tick(&self) -> Seq<char> {
        self.last_log_tick@
    }

    /// The buffered operations of the open transaction with this id, if one is open.
    pub closed spec fn txn_ops(&self, tid: Seq<char>) -> Option<Seq<TransactionOperation>> {
        match assoc_find(self.transactions@, tid) {
            Some(t) => Some(t.ops()),
            None => None,
        }
    }

    /// True when a transaction with this id is open.
    pub open spec fn has_txn(&self, tid: Seq<char>) -> bool {
        self.txn_ops(tid) is Some
    }

    /// The subscription registry.
    pub closed spec fn registry(&self) -> SubscriptionManager {
        self.subscriptions
    }

    /// The trigger's internal invariant: no duplicate transaction ids, and a
    /// well-formed registry.
    pub closed spec fn wf(&self) -> bool {
        unique_keys(self.transactions@) && self.subscriptions.wf()
    }

    /// Creates a new [`Trigger`] for the given ArangoDB host and database.
    pub fn new(host: &str, database: &str) -> (r: Trigger)
        ensures
            r.wf(),
            r.spec_host() == host@,
            r.spec_database() == database@,
            r.spec_auth() is None,
            r.tick() == "0"@,
            forall|t: Seq<char>| #[trigger] r.txn_ops(t) is None,
            r.registry().next_handle() == 0,
            forall|ev: HandlerEvent| #[trigger] r.registry().global_bucket(ev) == Seq::<
                u64,
            >::empty(),
            forall|c: Seq<char>, ev: HandlerEvent| #[trigger]
                r.registry().collection_bucket(c, ev) == Seq::<u64>::empty(),
    {
        Trigger {
            host: host.to_owned(),
            database: database.to_owned(),
            auth: None,
            last_log_tick: String::from_str("0"),
            transactions: Vec::new(),
            subscriptions: SubscriptionManager::new(),
        }
    }

    /// Creates a new [`Trigger`] that authenticates with HTTP Basic credentials.
    pub fn new_auth(host: &str, database: &str, auth: TriggerAuthentication) -> (r: Trigger)
        ensures
            r.wf(),
            r.spec_host() == host@,
            r.spec_database() == database@,
            r.spec_auth() == Some(auth),
            r.tick() == "0"@,
            forall|t: Seq<char>| #[trigger] r.txn_ops(t) is None,
            r.registry().next_handle() == 0,
            forall|ev: HandlerEvent| #[trigger] r.registry().global_bucket(ev) == Seq::<
                u64,
            >::empty(),
            forall|c: Seq<char>, ev: HandlerEvent| #[trigger]
                r.registry().collection_bucket(c, ev) == Seq::<u64>::empty(),
    {
        let mut instance = Self::new(host, database);
        let ghost fresh = instance;
        instance.auth = Some(auth);
        proof {
            assert forall|t: Seq<char>| #[trigger] instance.txn_ops(t) is None by {
                assert(instance.txn_ops(t) == fresh.txn_ops(t));
            }
            assert forall|ev: HandlerEvent| #[trigger] instance.registry().global_bucket(ev)
                == Seq::<u64>::empty() by {
                assert(instance.registry() == fresh.registry());
            }
            assert forall|c: Seq<char>, ev: HandlerEvent| #[trigger]
                instance.registry().collection_bucket(c, ev) == Seq::<u64>::empty() by {
                assert(instance.registry() == fresh.registry());
            }
        }
        instance
    }

    /// How many subscription handles have been given out so far; callers that
    /// cannot see the registry's ghost state test this before subscribing.
    pub fn handles_used(&self) -> (r: u64)
        ensures
            r == self.registry().next_handle(),
    {
        self.subscriptions.handle_count()
    }

    /// The authentication data this trigger was created with, if any.
    pub fn auth(&self) -> (r: &Option<TriggerAuthentication>)
        ensures
            *r == self.spec_auth(),
    {
        &self.auth
    }

    /// The current cursor value, as the server writes it.
    pub fn current_tick(&self) -> (t: &String)
        ensures
            t@ == self.tick(),
    {
        &self.last_log_tick
    }

    /// HTTP URI path for the given endpoint under the stored host and database.
    pub fn get_uri(&self, endpoint: &str) -> (r: String)
        ensures
            r@ == self.spec_host() + "/_db/"@ + self.spec_database() + endpoint@,
    {
        self.host.clone().concat("/_db/").concat(self.database.as_str()).concat(endpoint)
    }

    /// The query path of one follow request: it asks for the records after
    /// the current cursor.
    pub fn follow_query(&self) -> (r: String)
        ensures
            r@ == "/_api/replication/logger-follow?from="@ + self.tick(),
    {
        String::from_str("/_api/replication/logger-follow?from=").concat(
            self.last_log_tick.as_str(),
        )
    }

    /// The `Authorization` header value for the given credentials.
    pub fn get_authorization_value(&self, auth: &TriggerAuthentication) -> (r: String)
        ensures
            r@ == "Basic "@ + base64_of(
                encode_utf8(auth.spec_user() + ":"@ + auth.spec_password()),
            ),
    {
        let creds = auth.user.clone().concat(":").concat(auth.password.as_str());
        let encoded = base64_encode(creds.as_str());
        String::from_str("Basic ").concat(encoded.as_str())
    }

    /// Registers a global subscription for an event kind; hands back the
    /// subscription handle that dispatches will name.
    pub fn subscribe(&mut self, event: HandlerEvent) -> (id: u64)
        requires
            old(self).wf(),
            old(self).registry().next_handle() < u64::MAX,
        ensures
            final(self).wf(),
            id == old(self).registry().next_handle(),
            final(self).registry().next_handle() == old(self).registry().next_handle() + 1,
            final(self).registry().global_bucket(event) == old(self).registry().global_bucket(
                event,
            ).push(id),
            forall|e: HandlerEvent|
                e != event ==> #[trigger] final(self).registry().global_bucket(e) == old(
                    self,
                ).registry().global_bucket(e),
            forall|c: Seq<char>, e: HandlerEvent| #[trigger]
                final(self).registry().collection_bucket(c, e) == old(
                    self,
                ).registry().collection_bucket(c, e),
            unchanged_but_registry(*old(self), *final(self)),
    {
        self.subscriptions.insert(event)
    }

    /// Registers a subscription scoped to one collection; hands back the
    /// subscription handle that dispatches will name.
    pub fn subscribe_to(&mut self, event: HandlerEvent, collection: &str) -> (id: u64)
        requires
            old(self).wf(),
            old(self).registry().next_handle() < u64::MAX,
        ensures
            final(self).wf(),
            id == old(self).registry().next_handle(),
            final(self).registry().next_handle() == old(self).registry().next_handle() + 1,
            final(self).registry().collection_bucket(collection@, event) == old(
                self,
            ).registry().collection_bucket(collection@, event).push(id),
            forall|c: Seq<char>, e: HandlerEvent|
                c != collection@ || e != event ==> #[trigger] final(self).registry().collection_bucket(
                    c,
                    e,
                ) == old(self).registry().collection_bucket(c, e),
            forall|e: HandlerEvent| #[trigger]
                final(self).registry().global_bucket(e) == old(self).registry().global_bucket(e),
            unchanged_but_registry(*old(self), *final(self)),
    {
        let name = collection.to_owned();
        self.subscriptions.insert_to(event, &name)
    }
}

/// True when two trigger states agree on everything but the registry.
pub open spec fn unchanged_but_registry(pre: Trigger, post: Trigger) -> bool {
    &&& post.spec_host() == pre.spec_host()
    &&& post.spec_database() == pre.spec_database()
    &&& post.spec_auth() == pre.spec_auth()
    &&& post.tick() == pre.tick()
    &&& forall|t: Seq<char>| #[trigger] post.txn_ops(t) == pre.txn_ops(t)
}

/// The numeric type code the record parser reads from a line: the four
/// characters right after the first `"type":`, as a decimal number.
pub open spec fn spec_type_code(line: Seq<char>) -> Option<u16> {
    match find_spec(line, "\"type\":"@) {
        Some(i) => spec_parse_code(chars_between(line, i + "\"type\":"@.len(), 4)),
        None => None,
    }
}

/// The transaction id the record parser reads from a line: the characters
/// between the first `"tid":"` and the next double quote.
pub open spec fn spec_tid(line: Seq<char>) -> Option<Seq<char>> {
    match find_spec(line, "\"tid\":\""@) {
        Some(i) => Some(take_until(chars_from(line, i + "\"tid\":\""@.len()), '"')),
        None => None,
    }
}

/// The event kind a document-operation log type dispatches as.
pub open spec fn spec_event_of(lt: LogType) -> HandlerEvent {
    if lt == LogType::RemoveDocument {
        HandlerEvent::Remove
    } else {
        HandlerEvent::InsertOrReplace
    }
}

/// True when two trigger states agree on the connection details and the registry.
pub open spec fn same_config(pre: Trigger, post: Trigger) -> bool {
    &&& post.spec_host() == pre.spec_host()
    &&& post.spec_database() == pre.spec_database()
    &&& post.spec_auth() == pre.spec_auth()
    &&& post.registry() == pre.registry()
}

/// True when every transaction holds the same operations in both states.
pub open spec fn txns_unchanged(pre: Trigger, post: Trigger) -> bool {
    forall|t: Seq<char>| #[trigger] post.txn_ops(t) == pre.txn_ops(t)
}

/// True when every transaction but `t0` holds the same operations in both states.
pub open spec fn txns_unchanged_but(pre: Trigger, post: Trigger, t0: Seq<char>) -> bool {
    forall|t: Seq<char>| t != t0 ==> #[trigger] post.txn_ops(t) == pre.txn_ops(t)
}

/// The dispatches a batch of committed operations produces: one per
/// operation, in order, each fanned out per the registry's dispatch order.
pub open spec fn dispatches_for(
    reg: SubscriptionManager,
    ops: Seq<TransactionOperation>,
    out: Seq<Dispatch>,
) -> bool {
    &&& out.len() == ops.len()
    &&& forall|i: int|
        0 <= i < ops.len() ==> {
            &&& (#[trigger] out[i]).op == ops[i]
            &&& out[i].subscriptions@ == reg.dispatch_order(
                ops[i].event(),
                Some(ops[i].document().collection@),
            )
        }
}

/// True exactly when processing this line in this state fails: its `"type":`
/// field is missing or not four decimal digits, a record that needs a
/// transaction id has no `"tid":"` field, or a document operation that would
/// be kept cannot be decoded.
pub open spec fn step_rejects(pre: Trigger, line: Seq<char>) -> bool {
    match spec_type_code(line) {
        None => true,
        Some(code) => match spec_log_type(code) {
            Some(LogType::StartTransaction) | Some(LogType::CommitTransaction) | Some(
                LogType::AbortTransaction,
            ) => spec_tid(line) is None,
            Some(LogType::InsertOrReplaceDocument) | Some(LogType::RemoveDocument) => match spec_tid(
                line,
            ) {
                None => true,
                Some(t) => (t == "0"@ || pre.has_txn(t)) && doc_record_collection(line) is None,
            },
            _ => false,
        },
    }
}

/// How one successfully processed record takes the trigger from `pre` to
/// `post` and what it dispatches: the transaction-buffer state machine.
pub open spec fn step_ok(pre: Trigger, post: Trigger, line: Seq<char>, out: Seq<Dispatch>) -> bool {
    &&& same_config(pre, post)
    &&& post.tick() == pre.tick()
    &&& match spec_type_code(line) {
        None => false,
        Some(code) => match spec_log_type(code) {
            None => out == Seq::<Dispatch>::empty() && txns_unchanged(pre, post),
            Some(lt) => step_ok_known(pre, post, line, out, lt),
        },
    }
}

/// The step relation for a record whose type code is a known one.
pub open spec fn step_ok_known(
    pre: Trigger,
    post: Trigger,
    line: Seq<char>,
    out: Seq<Dispatch>,
    lt: LogType,
) -> bool {
    match lt {
        LogType::StartTransaction => match spec_tid(line) {
            None => false,
            Some(t) => {
                &&& out == Seq::<Dispatch>::empty()
                &&& post.txn_ops(t) == Some(Seq::<TransactionOperation>::empty())
                &&& txns_unchanged_but(pre, post, t)
            },
        },
        LogType::InsertOrReplaceDocument | LogType::RemoveDocument => match spec_tid(line) {
            None => false,
            Some(t) => step_ok_doc(pre, post, line, out, lt, t),
        },
        LogType::CommitTransaction => match spec_tid(line) {
            None => false,
            Some(t) => match pre.txn_ops(t) {
                Some(ops) => {
                    &&& dispatches_for(pre.registry(), ops, out)
                    &&& post.txn_ops(t) is None
                    &&& txns_unchanged_but(pre, post, t)
                },
                None => out == Seq::<Dispatch>::empty() && txns_unchanged(pre, post),
            },
        },
        LogType::AbortTransaction => match spec_tid(line) {
            None => false,
            Some(t) => {
                &&& out == Seq::<Dispatch>::empty()
                &&& post.txn_ops(t) is None
                &&& txns_unchanged_but(pre, post, t)
            },
        },
        _ => out == Seq::<Dispatch>::empty() && txns_unchanged(pre, post),
    }
}

/// The step relation for a document-operation record: standalone operations
/// dispatch at once, operations of an open transaction are buffered, and
/// operations of an unknown transaction are dropped.
pub open spec fn step_ok_doc(
    pre: Trigger,
    post: Trigger,
    line: Seq<char>,
    out: Seq<Dispatch>,
    lt: LogType,
    t: Seq<char>,
) -> bool {
    if t == "0"@ {
        match doc_record_collection(line) {
            None => false,
            Some(c) => {
                &&& txns_unchanged(pre, post)
                &&& out.len() == 1
                &&& out[0].op.event() == spec_event_of(lt)
                &&& out[0].op.document().collection@ == c
                &&& out[0].subscriptions@ == pre.registry().dispatch_order(
                    spec_event_of(lt),
                    Some(c),
                )
            },
        }
    } else {
        match pre.txn_ops(t) {
            Some(ops) => match doc_record_collection(line) {
                None => false,
                Some(c) => {
                    &&& out == Seq::<Dispatch>::empty()
                    &&& txns_unchanged_but(pre, post, t)
                    &&& post.txn_ops(t) is Some
                    &&& {
                        let newops = post.txn_ops(t).unwrap();
                        &&& newops.len() == ops.len() + 1
                        &&& newops.drop_last() == ops
                        &&& newops.last().event() == spec_event_of(lt)
                        &&& newops.last().document().collection@ == c
                    }
                },
            },
            None => out == Seq::<Dispatch>::empty() && txns_unchanged(pre, post),
        }
    }
}

/// True when `s` is exactly the sentinel tick `"0"`.
fn is_zero_str(s: &str) -> (r: bool)
    ensures
        r == (s@ == "0"@),
{
    proof {
        reveal_strlit("0");
    }
    let n = s.unicode_len();
    if n == 1 {
        let c = s.get_char(0);
        proof {
            if c == '0' {
                assert(s@ =~= "0"@);
            }
        }
        c == '0'
    } else {
        false
    }
}

/// Reads the transaction id out of a raw record line.
fn get_tid(line: &str) -> (r: Result<String>)
    ensures
        r matches Ok(t) ==> spec_tid(line@) == Some(t@),
        r matches Err(e) ==> spec_tid(line@) is None && e.kind == Kind::Io(Io::Serialize),
{
    match find_str(line, "\"tid\":\"") {
        Some(i) => {
            proof {
                reveal_strlit("\"tid\":\"");
                lemma_find_spec_props(line@, "\"tid\":\""@);
            }
            Ok(get_string_until(line, i + 7, '"'))
        },
        None => Err(Error::new(Kind::Io(Io::Serialize))),
    }
}

impl Trigger {
    /// Computes the fan-out of one operation: the subscription handles that
    /// must fire for it, in dispatch order.
    fn execute_operation(&self, op: &TransactionOperation) -> (r: Vec<u64>)
        ensures
            r@ == self.registry().dispatch_order(op.event(), Some(op.document().collection@)),
    {
        match op {
            TransactionOperation::InsertOrReplaceDocument(doc) => self.subscriptions.call(
                HandlerEvent::InsertOrReplace,
                Some(&doc.collection),
            ),
            TransactionOperation::RemoveDocument(doc) => self.subscriptions.call(
                HandlerEvent::Remove,
                Some(&doc.collection),
            ),
        }
    }

    /// Processes one line of the replication log: classifies the record,
    /// updates the transaction buffer, and hands back the dispatches it
    /// produces, in dispatch order.
    pub fn process_line(&mut self, line: &str) -> (r: Result<Vec<Dispatch>>)
        requires
            old(self).wf(),
        ensures
            final(self).wf(),
            r matches Ok(d) ==> step_ok(*old(self), *final(self), line@, d@) && !step_rejects(
                *old(self),
                line@,
            ),
            r matches Err(e) ==> {
                &&& step_rejects(*old(self), line@)
                &&& e.kind == Kind::Io(Io::Serialize)
                &&& *final(self) == *old(self)
            },
    {
        let type_idx = match find_str(line, "\"type\":") {
            Some(i) => i,
            None => {
                return Err(Error::new(Kind::Io(Io::Serialize)));
            },
        };
        proof {
            reveal_strlit("\"type\":");
            lemma_find_spec_props(line@, "\"type\":"@);
            assert(match_at(line@, "\"type\":"@, type_idx as int));
        }
        let code_str = get_string_between(line, type_idx + 7, 4);
        let code = match parse_code(code_str.as_str()) {
            Some(c) => c,
            None => {
                return Err(Error::new(Kind::Io(Io::Serialize)));
            },
        };
        proof {
            assert(spec_type_code(line@) == Some(code));
        }
        let lt = match LogType::try_from(code) {
            Some(lt) => lt,
            None => {
                let out: Vec<Dispatch> = Vec::new();
                proof {
                    assert(out@ =~= Seq::<Dispatch>::empty());
                }
                return Ok(out);
            },
        };
        match lt {
            LogType::StartTransaction => {
                let tid = match get_tid(line) {
                    Ok(t) => t,
                    Err(e) => {
                        return Err(e);
                    },
                };
                match assoc_index_of(&self.transactions, &tid) {
                    Some(i) => {
                        let ghost old_entries = self.transactions@;
                        let mut entry = self.transactions.remove(i);
                        entry.1 = Transaction::empty();
                        self.transactions.insert(i, entry);
                        proof {
                            assert(self.transactions@ =~= old_entries.update(
                                i as int,
                                self.transactions@[i as int],
                            ));
                            lemma_assoc_update(
                                old_entries,
                                i as int,
                                self.transactions@[i as int],
                                tid@,
                            );
                            assert(unique_keys(self.transactions@)) by {
                                assert forall|a: int, b: int|
                                    0 <= a < b < self.transactions@.len() implies (
                                #[trigger] self.transactions@[a]).0@ != (
                                #[trigger] self.transactions@[b]).0@ by {
                                    assert(old_entries[a].0@ != old_entries[b].0@);
                                }
                            }
                        }
                    },
                    None => {
                        let ghost old_entries = self.transactions@;
                        self.transactions.push((tid, Transaction::empty()));
                        proof {
                            lemma_assoc_push(
                                old_entries,
                                self.transactions@.last(),
                                self.transactions@.last().0@,
                            );
                            assert(unique_keys(self.transactions@)) by {
                                assert forall|a: int, b: int|
                                    0 <= a < b < self.transactions@.len() implies (
                                #[trigger] self.transactions@[a]).0@ != (
                                #[trigger] self.transactions@[b]).0@ by {
                                    if b < old_entries.len() {
                                        assert(old_entries[a].0@ != old_entries[b].0@);
                                    }
                                }
                            }
                        }
                    },
                }
                let out: Vec<Dispatch> = Vec::new();
                proof {
                    assert(out@ =~= Seq::<Dispatch>::empty());
                }
                Ok(out)
            },
            LogType::InsertOrReplaceDocument | LogType::RemoveDocument => {
                let tid = match get_tid(line) {
                    Ok(t) => t,
                    Err(e) => {
                        return Err(e);
                    },
                };
                if is_zero_str(tid.as_str()) {
                    let op = match decode_document_operation(line) {
                        Some(op) => op,
                        None => {
                            return Err(Error::new(Kind::Io(Io::Serialize)));
                        },
                    };
                    let top = if matches!(lt, LogType::RemoveDocument) {
                        TransactionOperation::RemoveDocument(op)
                    } else {
                        TransactionOperation::InsertOrReplaceDocument(op)
                    };
                    let plan = self.execute_operation(&top);
                    let mut out: Vec<Dispatch> = Vec::new();
                    out.push(Dispatch { op: top, subscriptions: plan });
                    proof {
                        assert(out@.len() == 1);
                    }
                    Ok(out)
                } else {
                    match assoc_index_of(&self.transactions, &tid) {
                        Some(i) => {
                            let op = match decode_document_operation(line) {
                                Some(op) => op,
                                None => {
                                    return Err(Error::new(Kind::Io(Io::Serialize)));
                                },
                            };
                            let top = if matches!(lt, LogType::RemoveDocument) {
                                TransactionOperation::RemoveDocument(op)
                            } else {
                                TransactionOperation::InsertOrReplaceDocument(op)
                            };
                            let ghost old_entries = self.transactions@;
                            let ghost old_ops = old_entries[i as int].1.ops();
                            let mut entry = self.transactions.remove(i);
                            entry.1.operations.push(top);
                            self.transactions.insert(i, entry);
                            proof {
                                assert(self.transactions@ =~= old_entries.update(
                                    i as int,
                                    self.transactions@[i as int],
                                ));
                                lemma_assoc_update(
                                    old_entries,
                                    i as int,
                                    self.transactions@[i as int],
                                    tid@,
                                );
                                assert(self.transactions@[i as int].1.ops() =~= old_ops.push(
                                    self.transactions@[i as int].1.ops().last(),
                                ));
                                assert(self.transactions@[i as int].1.ops().drop_last()
                                    =~= old_ops);
                                assert(unique_keys(self.transactions@)) by {
                                    assert forall|a: int, b: int|
                                        0 <= a < b < self.transactions@.len() implies (
                                    #[trigger] self.transactions@[a]).0@ != (
                                    #[trigger] self.transactions@[b]).0@ by {
                                        assert(old_entries[a].0@ != old_entries[b].0@);
                                    }
                                }
                            }
                            let out: Vec<Dispatch> = Vec::new();
                            proof {
                                assert(out@ =~= Seq::<Dispatch>::empty());
                            }
                            Ok(out)
                        },
                        None => {
                            let out: Vec<Dispatch> = Vec::new();
                            proof {
                                assert(out@ =~= Seq::<Dispatch>::empty());
                            }
                            Ok(out)
                        },
                    }
                }
            },
            LogType::CommitTransaction => {
                let tid = match get_tid(line) {
                    Ok(t) => t,
                    Err(e) => {
                        return Err(e);
                    },
                };
                match assoc_index_of(&self.transactions, &tid) {
                    Some(i) => {
                        let ghost old_entries = self.transactions@;
                        let entry = self.transactions.remove(i);
                        proof {
                            lemma_assoc_remove(old_entries, i as int, tid@);
                        }
                        let mut ops = entry.1.operations;
                        let ghost ops0 = ops@;
                        let ghost mid = *self;
                        let mut out: Vec<Dispatch> = Vec::new();
                        while ops.len() > 0
                            invariant
                                *self == mid,
                                out@.len() + ops@.len() == ops0.len(),
                                ops@ == ops0.skip(out@.len() as int),
                                dispatches_for(
                                    self.registry(),
                                    ops0.take(out@.len() as int),
                                    out@,
                                ),
                            decreases ops@.len(),
                        {
                            let ghost j = out@.len() as int;
                            let op = ops.remove(0);
                            proof {
                                assert(op == ops0[j]);
                            }
                            let plan = self.execute_operation(&op);
                            out.push(Dispatch { op, subscriptions: plan });
                            proof {
                                assert(ops0.take(j + 1) =~= ops0.take(j).push(ops0[j]));
                                assert(ops@ =~= ops0.skip(j + 1));
                            }
                        }
                        proof {
                            assert(ops0.take(out@.len() as int) =~= ops0);
                        }
                        Ok(out)
                    },
                    None => {
                        let out: Vec<Dispatch> = Vec::new();
                        proof {
                            assert(out@ =~= Seq::<Dispatch>::empty());
                        }
                        Ok(out)
                    },
                }
            },
            LogType::AbortTransaction => {
                let tid = match get_tid(line) {
                    Ok(t) => t,
                    Err(e) => {
                        return Err(e);
                    },
                };
                match assoc_index_of(&self.transactions, &tid) {
                    Some(i) => {
                        let ghost old_entries = self.transactions@;
                        let _ = self.transactions.remove(i);
                        proof {
                            lemma_assoc_remove(old_entries, i as int, tid@);
                        }
                    },
                    None => {},
                }
                let out: Vec<Dispatch> = Vec::new();
                proof {
                    assert(out@ =~= Seq::<Dispatch>::empty());
                }
                Ok(out)
            },
            _ => {
                let out: Vec<Dispatch> = Vec::new();
                proof {
                    assert(out@ =~= Seq::<Dispatch>::empty());
                }
                Ok(out)
            },
        }
    }
}

/// The header value of a follow response, viewed.
pub open spec fn spec_header(header: Option<&str>) -> Option<Seq<char>> {
    match header {
        Some(h) => Some(h@),
        None => None,
    }
}

/// What a follow cycle does once the response status and the
/// last-included-tick header are known: a non-success status fails the cycle;
/// an absent header or the header `"0"` means an idle cycle; a header equal
/// to the current cursor means the body holds nothing new; any other header
/// means the body is consumed.
pub open spec fn spec_decision(current: Seq<char>, status: u16, header: Option<Seq<char>>) -> Option<
    FollowAction,
> {
    if status != 200 && status != 204 {
        None
    } else {
        Some(
            match header {
                None => FollowAction::Idle,
                Some(h) => if h == "0"@ {
                    FollowAction::Idle
                } else if h == current {
                    FollowAction::SkipBody
                } else {
                    FollowAction::ProcessBody
                },
            },
        )
    }
}

/// The tick the cursor holds after a successful follow cycle: unchanged when
/// the server reported no progress, else the header value.
pub open spec fn cycle_next_tick(current: Seq<char>, header: Option<Seq<char>>) -> Seq<char> {
    match header {
        None => current,
        Some(h) => if h == "0"@ {
            current
        } else {
            h
        },
    }
}

/// The lines of a response body, viewed.
pub open spec fn lines_views(lines: Seq<String>) -> Seq<Seq<char>> {
    lines.map_values(|s: String| s@)
}

/// A whole body processed record by record: relates the state before to the
/// state after and to the concatenation of everything dispatched, in order.
pub open spec fn batch_ok(
    pre: Trigger,
    lines: Seq<Seq<char>>,
    post: Trigger,
    out: Seq<Dispatch>,
) -> bool
    decreases lines.len(),
{
    if lines.len() == 0 {
        post == pre && out == Seq::<Dispatch>::empty()
    } else {
        exists|mid: Trigger, first: Seq<Dispatch>, rest: Seq<Dispatch>|
            #![trigger step_ok(pre, mid, lines[0], first), out_split(out, first, rest)]
            {
                &&& step_ok(pre, mid, lines[0], first)
                &&& batch_ok(mid, lines.drop_first(), post, rest)
                &&& out_split(out, first, rest)
            }
    }
}

/// How a batch's dispatches split: what its first record dispatched, then
/// everything the remaining records dispatched.
pub open spec fn out_split(out: Seq<Dispatch>, first: Seq<Dispatch>, rest: Seq<Dispatch>) -> bool {
    out == first + rest
}

/// A batch grows by one step at its end.
pub proof fn lemma_batch_snoc(
    pre: Trigger,
    lines: Seq<Seq<char>>,
    mid: Trigger,
    out1: Seq<Dispatch>,
    line: Seq<char>,
    post: Trigger,
    out2: Seq<Dispatch>,
)
    requires
        batch_ok(pre, lines, mid, out1),
        step_ok(mid, post, line, out2),
    ensures
        batch_ok(pre, lines.push(line), post, out1 + out2),
    decreases lines.len(),
{
    let grown = lines.push(line);
    if lines.len() == 0 {
        assert(grown[0] == line);
        assert(grown.drop_first() =~= Seq::<Seq<char>>::empty());
        assert(batch_ok(post, grown.drop_first(), post, Seq::<Dispatch>::empty()));
        assert(out1 + out2 =~= out2 + Seq::<Dispatch>::empty());
        assert(step_ok(pre, post, grown[0], out2));
        assert(out_split(out1 + out2, out2, Seq::<Dispatch>::empty()));
    } else {
        let (m1, f, r) = choose|m1: Trigger, f: Seq<Dispatch>, r: Seq<Dispatch>|
            #![trigger step_ok(pre, m1, lines[0], f), out_split(out1, f, r)]
            {
                &&& step_ok(pre, m1, lines[0], f)
                &&& batch_ok(m1, lines.drop_first(), mid, r)
                &&& out_split(out1, f, r)
            };
        lemma_batch_snoc(m1, lines.drop_first(), mid, r, line, post, out2);
        assert(grown[0] == lines[0]);
        assert(grown.drop_first() =~= lines.drop_first().push(line));
        assert(out1 + out2 =~= f + (r + out2));
        assert(step_ok(pre, m1, grown[0], f));
        assert(out_split(out1 + out2, f, r + out2));
    }
}

/// Two batches run one after the other make one batch over the joined line
/// streams, dispatching the concatenation of what each dispatched.
pub proof fn lemma_batch_append(
    pre: Trigger,
    a: Seq<Seq<char>>,
    mid: Trigger,
    out1: Seq<Dispatch>,
    b: Seq<Seq<char>>,
    post: Trigger,
    out2: Seq<Dispatch>,
)
    requires
        batch_ok(pre, a, mid, out1),
        batch_ok(mid, b, post, out2),
    ensures
        batch_ok(pre, a + b, post, out1 + out2),
    decreases a.len(),
{
    if a.len() == 0 {
        assert(a + b =~= b);
        assert(out1 + out2 =~= out2);
    } else {
        let (m1, f, r) = choose|m1: Trigger, f: Seq<Dispatch>, r: Seq<Dispatch>|
            #![trigger step_ok(pre, m1, a[0], f), out_split(out1, f, r)]
            {
                &&& step_ok(pre, m1, a[0], f)
                &&& batch_ok(m1, a.drop_first(), mid, r)
                &&& out_split(out1, f, r)
            };
        lemma_batch_append(m1, a.drop_first(), mid, r, b, post, out2);
        assert((a + b)[0] == a[0]);
        assert((a + b).drop_first() =~= a.drop_first() + b);
        assert(out1 + out2 =~= f + (r + out2));
        assert(step_ok(pre, m1, (a + b)[0], f));
        assert(out_split(out1 + out2, f, r + out2));
    }
}

/// Some processing of these records, in order, takes the trigger from `pre`
/// to `post`, whatever it dispatched along the way.
pub open spec fn some_batch(pre: Trigger, lines: Seq<Seq<char>>, post: Trigger) -> bool
    decreases lines.len(),
{
    if lines.len() == 0 {
        post == pre
    } else {
        exists|mid: Trigger, first: Seq<Dispatch>|
            #![trigger step_ok(pre, mid, lines[0], first)]
            step_ok(pre, mid, lines[0], first) && some_batch(mid, lines.drop_first(), post)
    }
}

/// A batch reaches its end state, whatever it dispatched.
pub proof fn lemma_batch_reaches(
    pre: Trigger,
    lines: Seq<Seq<char>>,
    post: Trigger,
    out: Seq<Dispatch>,
)
    requires
        batch_ok(pre, lines, post, out),
    ensures
        some_batch(pre, lines, post),
    decreases lines.len(),
{
    if lines.len() > 0 {
        let (m1, f, r) = choose|m1: Trigger, f: Seq<Dispatch>, r: Seq<Dispatch>|
            #![trigger step_ok(pre, m1, lines[0], f), out_split(out, f, r)]
            {
                &&& step_ok(pre, m1, lines[0], f)
                &&& batch_ok(m1, lines.drop_first(), post, r)
                &&& out_split(out, f, r)
            };
        lemma_batch_reaches(m1, lines.drop_first(), post, r);
        assert(step_ok(pre, m1, lines[0], f));
    }
}

impl Trigger {
    /// Moves the cursor to the tick the server reported as last included.
    /// Call this only once a cycle's body has been fully consumed, so that a
    /// failed cycle is retried from the same position.
    pub fn advance_cursor(&mut self, next_tick: &str)
        ensures
            final(self).tick() == next_tick@,
            same_config(*old(self), *final(self)),
            txns_unchanged(*old(self), *final(self)),
            final(self).wf() == old(self).wf(),
    {
        self.last_log_tick = next_tick.to_owned();
    }

    /// Applies the logger-state response of the initialization request: on
    /// success the cursor holds the server's last log tick.
    pub fn apply_init_response(&mut self, status: u16, body: &str) -> (r: Result<()>)
        ensures
            final(self).wf() == old(self).wf(),
            r is Ok <==> status == 200 && logger_state_tick(body@) is Some,
            r is Ok ==> {
                &&& Some(final(self).tick()) == logger_state_tick(body@)
                &&& same_config(*old(self), *final(self))
                &&& txns_unchanged(*old(self), *final(self))
            },
            r matches Err(e) ==> {
                &&& *final(self) == *old(self)
                &&& (if status != 200 {
                    e.kind == Kind::ArangoDB(ArangoDBError::HttpError(status))
                } else {
                    e.kind == Kind::Io(Io::Serialize)
                })
            },
    {
        if status != 200 {
            return Err(Error::new(Kind::ArangoDB(ArangoDBError::HttpError(status))));
        }
        match decode_logger_state(body) {
            Some(tick) => {
                self.last_log_tick = tick;
                Ok(())
            },
            None => Err(Error::new(Kind::Io(Io::Serialize))),
        }
    }

    /// Decides what this follow cycle does, from the response status and the
    /// last-included-tick header.
    pub fn follow_decision(&self, status: u16, header: Option<&str>) -> (r: Result<FollowAction>)
        ensures
            r matches Ok(a) ==> spec_decision(self.tick(), status, spec_header(header)) == Some(a),
            r matches Err(e) ==> spec_decision(self.tick(), status, spec_header(header)) is None
                && e.kind == Kind::ArangoDB(ArangoDBError::HttpError(status)),
    {
        if status != 200 && status != 204 {
            return Err(Error::new(Kind::ArangoDB(ArangoDBError::HttpError(status))));
        }
        match header {
            None => Ok(FollowAction::Idle),
            Some(h) => {
                if is_zero_str(h) {
                    Ok(FollowAction::Idle)
                } else if String::from_str(h) == self.last_log_tick {
                    Ok(FollowAction::SkipBody)
                } else {
                    Ok(FollowAction::ProcessBody)
                }
            },
        }
    }

    /// Runs one whole follow cycle over data already read off the response:
    /// decides from status and header, consumes the body records when the
    /// cursor moved, and only then advances the cursor, so that a failed
    /// cycle is retried from the same position.
    pub fn run_cycle(&mut self, status: u16, header: Option<&str>, lines: &Vec<String>) -> (r:
        Result<CycleOutcome>)
        requires
            old(self).wf(),
        ensures
            final(self).wf(),
            r matches Ok(out) ==> {
                let dec = spec_decision(old(self).tick(), status, spec_header(header));
                &&& dec is Some
                &&& (out.idle <==> dec == Some(FollowAction::Idle))
                &&& final(self).tick() == cycle_next_tick(old(self).tick(), spec_header(header))
                &&& same_config(*old(self), *final(self))
                &&& (dec != Some(FollowAction::ProcessBody) ==> *final(self) == *old(self)
                    && out.dispatches@ == Seq::<Dispatch>::empty())
                &&& (dec == Some(FollowAction::ProcessBody) ==> exists|m: Trigger|
                    {
                        &&& batch_ok(*old(self), lines_views(lines@), m, out.dispatches@)
                        &&& #[trigger] txns_unchanged(m, *final(self))
                        &&& same_config(m, *final(self))
                    })
            },
            spec_decision(old(self).tick(), status, spec_header(header)) matches Some(a) && a
                != FollowAction::ProcessBody ==> r is Ok,
            r matches Err(e) ==> {
                let dec = spec_decision(old(self).tick(), status, spec_header(header));
                &&& final(self).tick() == old(self).tick()
                &&& same_config(*old(self), *final(self))
                &&& (if dec is None {
                    e.kind == Kind::ArangoDB(ArangoDBError::HttpError(status)) && *final(self)
                        == *old(self)
                } else {
                    &&& dec == Some(FollowAction::ProcessBody)
                    &&& e.kind == Kind::Io(Io::Serialize)
                    &&& exists|i: int|
                        #![trigger step_rejects(*final(self), lines_views(lines@)[i])]
                        {
                            &&& 0 <= i < lines_views(lines@).len()
                            &&& some_batch(*old(self), lines_views(lines@).take(i), *final(self))
                            &&& step_rejects(*final(self), lines_views(lines@)[i])
                        }
                })
            },
    {
        let action = match self.follow_decision(status, header) {
            Ok(a) => a,
            Err(e) => {
                return Err(e);
            },
        };
        match action {
            FollowAction::Idle => {
                let dispatches: Vec<Dispatch> = Vec::new();
                proof {
                    assert(dispatches@ =~= Seq::<Dispatch>::empty());
                }
                Ok(CycleOutcome { idle: true, dispatches })
            },
            FollowAction::SkipBody => {
                let dispatches: Vec<Dispatch> = Vec::new();
                proof {
                    assert(dispatches@ =~= Seq::<Dispatch>::empty());
                }
                Ok(CycleOutcome { idle: false, dispatches })
            },
            FollowAction::ProcessBody => {
                let h = match header {
                    Some(h) => h,
                    None => {
                        proof {
                            assert(false);
                        }
                        ""
                    },
                };
                let mut dispatches: Vec<Dispatch> = Vec::new();
                let n = lines.len();
                let mut i: usize = 0;
                proof {
                    assert(dispatches@ =~= Seq::<Dispatch>::empty());
                    assert(lines_views(lines@).take(0) =~= Seq::<Seq<char>>::empty());
                }
                while i < n
                    invariant
                        0 <= i <= n,
                        n == lines@.len(),
                        self.wf(),
                        old(self).wf(),
                        same_config(*old(self), *self),
                        self.tick() == old(self).tick(),
                        batch_ok(*old(self), lines_views(lines@).take(i as int), *self, dispatches@),
                        spec_decision(old(self).tick(), status, spec_header(header)) == Some(
                            FollowAction::ProcessBody,
                        ),
                        spec_header(header) == Some(h@),
                    decreases n - i,
                {
                    let ghost prev = *self;
                    let mut d = match self.process_line(lines[i].as_str()) {
                        Ok(d) => d,
                        Err(e) => {
                            proof {
                                assert(lines_views(lines@)[i as int] == lines@[i as int]@);
                                lemma_batch_reaches(
                                    *old(self),
                                    lines_views(lines@).take(i as int),
                                    prev,
                                    dispatches@,
                                );
                                assert(step_rejects(*self, lines_views(lines@)[i as int]));
                            }
                            return Err(e);
                        },
                    };
                    proof {
                        assert(lines_views(lines@)[i as int] == lines@[i as int]@);
                        lemma_batch_snoc(
                            *old(self),
                            lines_views(lines@).take(i as int),
                            prev,
                            dispatches@,
                            lines@[i as int]@,
                            *self,
                            d@,
                        );
                        assert(lines_views(lines@).take(i + 1) =~= lines_views(lines@).take(
                            i as int,
                        ).push(lines_views(lines@)[i as int]));
                    }
                    dispatches.append(&mut d);
                    i = i + 1;
                }
                proof {
                    assert(lines_views(lines@).take(n as int) =~= lines_views(lines@));
                }
                let ghost m = *self;
                self.advance_cursor(h);
                let outcome = CycleOutcome { idle: false, dispatches };
                proof {
                    assert(batch_ok(*old(self), lines_views(lines@), m, outcome.dispatches@)
                        && txns_unchanged(m, *self) && same_config(m, *self));
                }
                Ok(outcome)
            },
        }
    }
}

/// The standard base64 encoding of a byte sequence.
pub uninterp spec fn base64_of(bytes: Seq<u8>) -> Seq<char>;

/// Relies on `base64::encode`: the standard-alphabet, padded base64 encoding,
/// a function of the input bytes alone; empty input gives an empty string.
#[verifier::external_body]
fn base64_encode(input: &str) -> (r: String)
    ensures
        r@ == base64_of(input.spec_bytes()),
        input@.len() == 0 ==> r@.len() == 0,
{
    base64::encode(input)
}

} // verus!
