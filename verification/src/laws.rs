use vstd::prelude::*;

use crate::api::LogType;
use crate::api::spec_log_type;
use crate::events::{HandlerEvent, SubscriptionManager};
use crate::trigger::{
    cycle_next_tick, spec_decision, spec_event_of, spec_tid, spec_type_code, step_ok, txns_unchanged,
    txns_unchanged_but, Dispatch, FollowAction, TransactionOperation, Trigger,
};
use crate::utils::{dec_val, is_digit};

verus! {

/// True when every character of `s` is an ASCII decimal digit.
pub open spec fn all_digits(s: Seq<char>) -> bool {
    forall|i: int| 0 <= i < s.len() ==> is_digit(#[trigger] s[i])
}

/// Cursor monotonicity: a successful follow cycle never moves the cursor
/// backwards, under the numeric order of decimal ticks, as long as the
/// server's last-included header names a tick at or past the cursor it was
/// asked from — which the replication protocol promises. An idle header
/// (`"0"`) or an absent one leaves the cursor exactly where it was.
pub proof fn lemma_cursor_monotonic(current: Seq<char>, header: Option<Seq<char>>)
    requires
        all_digits(current),
        header matches Some(h) ==> all_digits(h) && (h != "0"@ ==> dec_val(h) >= dec_val(current)),
    ensures
        dec_val(cycle_next_tick(current, header)) >= dec_val(current),
{
}

/// Transaction atomicity: the commit of an open transaction dispatches
/// exactly that transaction's buffered operations, in the order the server
/// emitted them, as one contiguous block in the step's output, with no other
/// transaction's operations among them; the transaction is then gone.
pub proof fn lemma_transaction_atomicity(
    pre: Trigger,
    post: Trigger,
    line: Seq<char>,
    out: Seq<Dispatch>,
    t: Seq<char>,
    ops: Seq<TransactionOperation>,
)
    requires
        step_ok(pre, post, line, out),
        spec_type_code(line) matches Some(c) && spec_log_type(c) == Some(
            LogType::CommitTransaction,
        ),
        spec_tid(line) == Some(t),
        pre.txn_ops(t) == Some(ops),
    ensures
        out.len() == ops.len(),
        forall|i: int|
            0 <= i < ops.len() ==> (#[trigger] out[i]).op == ops[i] && out[i].subscriptions@
                == pre.registry().dispatch_order(ops[i].event(), Some(ops[i].document().collection@)),
        post.txn_ops(t) is None,
        txns_unchanged_but(pre, post, t),
{
}

/// Abort purity: an abort record dispatches nothing, and the aborted
/// transaction's buffered operations are discarded, so no handler call can
/// ever come from them.
pub proof fn lemma_abort_purity(pre: Trigger, post: Trigger, line: Seq<char>, out: Seq<Dispatch>, t: Seq<char>)
    requires
        step_ok(pre, post, line, out),
        spec_type_code(line) matches Some(c) && spec_log_type(c) == Some(
            LogType::AbortTransaction,
        ),
        spec_tid(line) == Some(t),
    ensures
        out == Seq::<Dispatch>::empty(),
        post.txn_ops(t) is None,
        txns_unchanged_but(pre, post, t),
{
}

/// Standalone immediacy: a document-operation record with transaction id
/// `"0"` produces its dispatch in the very step that parses it — before any
/// later record is looked at — and leaves every open transaction alone.
pub proof fn lemma_standalone_immediacy(
    pre: Trigger,
    post: Trigger,
    line: Seq<char>,
    out: Seq<Dispatch>,
    lt: LogType,
)
    requires
        step_ok(pre, post, line, out),
        spec_type_code(line) matches Some(c) && spec_log_type(c) == Some(lt),
        lt == LogType::InsertOrReplaceDocument || lt == LogType::RemoveDocument,
        spec_tid(line) == Some("0"@),
    ensures
        out.len() == 1,
        out[0].op.event() == spec_event_of(lt),
        out[0].subscriptions@ == pre.registry().dispatch_order(
            spec_event_of(lt),
            Some(out[0].op.document().collection@),
        ),
        txns_unchanged(pre, post),
{
}

/// Unknown-record tolerance: a record whose type code is outside the known
/// set dispatches nothing and neither advances nor corrupts any transaction's
/// state, the cursor, or the registry.
pub proof fn lemma_unknown_record_tolerance(
    pre: Trigger,
    post: Trigger,
    line: Seq<char>,
    out: Seq<Dispatch>,
)
    requires
        step_ok(pre, post, line, out),
        spec_type_code(line) matches Some(c) && spec_log_type(c) is None,
    ensures
        out == Seq::<Dispatch>::empty(),
        txns_unchanged(pre, post),
        post.tick() == pre.tick(),
        post.registry() == pre.registry(),
{
}

/// Idempotent idle: a follow cycle whose last-included header is `"0"` is an
/// idle cycle, and an idle cycle leaves the cursor unchanged. Together with
/// the follow cycle's own contract — an idle outcome changes nothing and
/// dispatches nothing — this is the idle law.
pub proof fn lemma_idempotent_idle(current: Seq<char>, status: u16)
    requires
        status == 200 || status == 204,
    ensures
        spec_decision(current, status, Some("0"@)) == Some(FollowAction::Idle),
        cycle_next_tick(current, Some("0"@)) == current,
{
}

/// Dispatch order: within one dispatch, subscriptions fire in the order
/// global-registration-order followed by collection-registration-order.
pub proof fn lemma_dispatch_order(reg: SubscriptionManager, ev: HandlerEvent, c: Seq<char>)
    ensures
        reg.dispatch_order(ev, Some(c)) == reg.global_bucket(ev) + reg.collection_bucket(c, ev),
        reg.dispatch_order(ev, None) == reg.global_bucket(ev) + Seq::<u64>::empty(),
{
}

} // verus!
