use rust_arango_trigger::{HandlerContext, HandlerContextFactory, HandlerEvent, Trigger};

struct Counters {
    hits: u64,
}

#[test]
fn handler_context_wraps_and_unwraps() {
    let ctx: HandlerContext<Counters> = HandlerContextFactory::from(Counters { hits: 7 });
    assert_eq!(ctx.get_ref().hits, 7);
    let copy = ctx.clone();
    assert_eq!(copy.get_ref().hits, 7);
    let arc = ctx.into_inner();
    assert_eq!(arc.hits, 7);
}

#[test]
fn dispatch_order_is_global_then_collection_in_registration_order() {
    let mut trigger = Trigger::new("http://localhost:8529", "db");
    trigger.advance_cursor("10");
    let g1 = trigger.subscribe(HandlerEvent::InsertOrReplace);
    let c1 = trigger.subscribe_to(HandlerEvent::InsertOrReplace, "users");
    let g2 = trigger.subscribe(HandlerEvent::InsertOrReplace);
    let c2 = trigger.subscribe_to(HandlerEvent::InsertOrReplace, "users");
    let other = trigger.subscribe_to(HandlerEvent::InsertOrReplace, "orders");
    let removals = trigger.subscribe(HandlerEvent::Remove);

    let body = vec![
        r#"{"tick":"11","type":2300,"tid":"0","cname":"users","data":{"k":1}}"#.to_string(),
    ];
    let outcome = trigger.run_cycle(200, Some("11"), &body).unwrap();
    assert_eq!(outcome.dispatches.len(), 1);
    // Global subscriptions fire first, then the collection-scoped ones, each
    // group in registration order; other collections and other event kinds
    // stay silent.
    assert_eq!(outcome.dispatches[0].subscriptions, vec![g1, g2, c1, c2]);
    assert!(!outcome.dispatches[0].subscriptions.contains(&other));
    assert!(!outcome.dispatches[0].subscriptions.contains(&removals));
}

#[test]
fn unmatched_collection_fires_global_handlers_only() {
    let mut trigger = Trigger::new("http://localhost:8529", "db");
    trigger.advance_cursor("10");
    let g1 = trigger.subscribe(HandlerEvent::Remove);
    trigger.subscribe_to(HandlerEvent::Remove, "users");
    let body = vec![
        r#"{"tick":"11","type":2302,"tid":"0","cname":"orders","data":{"k":1}}"#.to_string(),
    ];
    let outcome = trigger.run_cycle(200, Some("11"), &body).unwrap();
    assert_eq!(outcome.dispatches.len(), 1);
    assert_eq!(outcome.dispatches[0].subscriptions, vec![g1]);
}
