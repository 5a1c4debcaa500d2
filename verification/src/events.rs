use vstd::prelude::*;

use crate::assoc::{
    assoc_find, assoc_index_of, lemma_assoc_push, lemma_assoc_update, unique_keys,
};

use std::sync::Arc;

verus! {

/// Defines the type of event a handler listens to.
#[derive(Clone, Copy, Debug, PartialEq, Eq, Hash, Structural)]
pub enum HandlerEvent {
    /// A document was inserted or replaced.
    InsertOrReplace,
    /// A document was removed.
    Remove,
}

/// Handler context wrapper and extractor.
///
/// Note that `HandlerContext` is cheap to clone; internally, it uses an `Arc`.
pub struct HandlerContext<T>(Arc<Box<T>>);

impl<T> HandlerContext<T> {
    /// The context value held inside.
    pub closed spec fn value(&self) -> T {
        **self.0
    }

    /// Creates a new `HandlerContext` instance.
    pub fn new(data: Box<T>) -> (r: Self)
        ensures
            r.value() == data,
    {
        HandlerContext(Arc::new(data))
    }

    /// Returns a reference to the inner `T`.
    pub fn get_ref(&self) -> (r: &T)
        ensures
            *r == self.value(),
    {
        &**self.0
    }

    /// Unwraps to the internal `Arc<T>`.
    pub fn into_inner(self) -> (r: Arc<Box<T>>)
        ensures
            **r == self.value(),
    {
        self.0
    }
}

impl<T> Clone for HandlerContext<T> {
    /// Clones the shared reference, not the context value.
    fn clone(&self) -> (r: Self)
        ensures
            r.value() == self.value(),
    {
        HandlerContext(Arc::clone(&self.0))
    }
}

/// Factory for [`HandlerContext`] values.
pub struct HandlerContextFactory;

impl HandlerContextFactory {
    /// Wraps a context value for subscribing.
    pub fn from<T>(data: T) -> (r: HandlerContext<T>)
        ensures
            r.value() == data,
    {
        HandlerContext::new(Box::new(data))
    }
}

/// Event subscription buckets: the subscriptions listening to each event kind,
/// named by their registration handles, in registration order.
pub struct SubscriptionMap {
    insert_or_replace: Vec<u64>,
    remove: Vec<u64>,
}

impl SubscriptionMap {
    /// Registration handles subscribed to one event kind, oldest first.
    pub closed spec fn bucket(&self, ev: HandlerEvent) -> Seq<u64> {
        match ev {
            HandlerEvent::InsertOrReplace => self.insert_or_replace@,
            HandlerEvent::Remove => self.remove@,
        }
    }

    /// Creates a new empty instance of `SubscriptionMap`.
    pub fn empty() -> (r: Self)
        ensures
            forall|ev: HandlerEvent| #[trigger] r.bucket(ev) == Seq::<u64>::empty(),
    {
        SubscriptionMap { insert_or_replace: Vec::new(), remove: Vec::new() }
    }

    /// Appends a subscription handle to the bucket of one event kind.
    pub fn insert(&mut self, ev: HandlerEvent, id: u64)
        ensures
            final(self).bucket(ev) == old(self).bucket(ev).push(id),
            forall|e: HandlerEvent|
                e != ev ==> #[trigger] final(self).bucket(e) == old(self).bucket(e),
    {
        match ev {
            HandlerEvent::InsertOrReplace => self.insert_or_replace.push(id),
            HandlerEvent::Remove => self.remove.push(id),
        }
    }

    /// All the subscription handles attached to one event kind.
    pub fn get(&self, ev: HandlerEvent) -> (r: &Vec<u64>)
        ensures
            r@ == self.bucket(ev),
    {
        match ev {
            HandlerEvent::InsertOrReplace => &self.insert_or_replace,
            HandlerEvent::Remove => &self.remove,
        }
    }
}

/// Subscription manager holding a general [`SubscriptionMap`] for globally
/// registered subscriptions and one per collection, keyed by collection name.
pub struct SubscriptionManager {
    subscriptions: SubscriptionMap,
    collection_subscriptions: Vec<(String, SubscriptionMap)>,
    next_id: u64,
}

impl SubscriptionManager {
    /// The handle the next registration will be given.
    pub closed spec fn next_handle(&self) -> u64 {
        self.next_id
    }

    /// Handles registered globally for one event kind, in registration order.
    pub closed spec fn global_bucket(&self, ev: HandlerEvent) -> Seq<u64> {
        self.subscriptions.bucket(ev)
    }

    /// Handles registered for one collection and event kind, in registration order.
    pub closed spec fn collection_bucket(&self, collection: Seq<char>, ev: HandlerEvent) -> Seq<
        u64,
    > {
        match assoc_find(self.collection_subscriptions@, collection) {
            Some(m) => m.bucket(ev),
            None => Seq::empty(),
        }
    }

    /// The per-collection buckets hold no duplicate collection entries.
    pub closed spec fn wf(&self) -> bool {
        unique_keys(self.collection_subscriptions@)
    }

    /// The exact order in which one dispatch fans out: every global
    /// subscription for the event first, then every subscription scoped to the
    /// given collection, each group in registration order.
    pub open spec fn dispatch_order(
        &self,
        ev: HandlerEvent,
        collection: Option<Seq<char>>,
    ) -> Seq<u64> {
        self.global_bucket(ev) + match collection {
            Some(c) => self.collection_bucket(c, ev),
            None => Seq::empty(),
        }
    }

    /// Creates a new instance of `SubscriptionManager` with no subscriptions.
    pub fn new() -> (r: Self)
        ensures
            r.wf(),
            r.next_handle() == 0,
            forall|ev: HandlerEvent| #[trigger] r.global_bucket(ev) == Seq::<u64>::empty(),
            forall|c: Seq<char>, ev: HandlerEvent| #[trigger] r.collection_bucket(c, ev) == Seq::<
                u64,
            >::empty(),
    {
        SubscriptionManager {
            subscriptions: SubscriptionMap::empty(),
            collection_subscriptions: Vec::new(),
            next_id: 0,
        }
    }

    /// How many handles have been given out; also the handle the next
    /// registration will be given.
    pub fn handle_count(&self) -> (r: u64)
        ensures
            r == self.next_handle(),
    {
        self.next_id
    }

    /// Registers a global subscription for an event kind and hands back its handle.
    pub fn insert(&mut self, ev: HandlerEvent) -> (id: u64)
        requires
            old(self).wf(),
            old(self).next_handle() < u64::MAX,
        ensures
            final(self).wf(),
            id == old(self).next_handle(),
            final(self).next_handle() == old(self).next_handle() + 1,
            final(self).global_bucket(ev) == old(self).global_bucket(ev).push(id),
            forall|e: HandlerEvent|
                e != ev ==> #[trigger] final(self).global_bucket(e) == old(self).global_bucket(e),
            forall|c: Seq<char>, e: HandlerEvent| #[trigger]
                final(self).collection_bucket(c, e) == old(self).collection_bucket(c, e),
    {
        let id = self.next_id;
        self.subscriptions.insert(ev, id);
        self.next_id = self.next_id + 1;
        id
    }

    /// Registers a subscription scoped to one collection and hands back its handle.
    pub fn insert_to(&mut self, ev: HandlerEvent, collection: &String) -> (id: u64)
        requires
            old(self).wf(),
            old(self).next_handle() < u64::MAX,
        ensures
            final(self).wf(),
            id == old(self).next_handle(),
            final(self).next_handle() == old(self).next_handle() + 1,
            final(self).collection_bucket(collection@, ev) == old(self).collection_bucket(
                collection@,
                ev,
            ).push(id),
            forall|c: Seq<char>, e: HandlerEvent|
                c != collection@ || e != ev ==> #[trigger] final(self).collection_bucket(c, e)
                    == old(self).collection_bucket(c, e),
            forall|e: HandlerEvent| #[trigger]
                final(self).global_bucket(e) == old(self).global_bucket(e),
    {
        let id = self.next_id;
        match assoc_index_of(&self.collection_subscriptions, collection) {
            Some(i) => {
                let ghost old_entries = self.collection_subscriptions@;
                let mut entry = self.collection_subscriptions.remove(i);
                entry.1.insert(ev, id);
                self.collection_subscriptions.insert(i, entry);
                proof {
                    assert(self.collection_subscriptions@ =~= old_entries.update(
                        i as int,
                        (old_entries[i as int].0, entry.1),
                    ));
                    lemma_assoc_update(
                        old_entries,
                        i as int,
                        (old_entries[i as int].0, entry.1),
                        collection@,
                    );
                    assert forall|a: int, b: int|
                        0 <= a < b < self.collection_subscriptions@.len() implies (
                    #[trigger] self.collection_subscriptions@[a]).0@ != (
                    #[trigger] self.collection_subscriptions@[b]).0@ by {
                        assert(old_entries[a].0@ != old_entries[b].0@);
                    }
                }
            },
            None => {
                let mut map = SubscriptionMap::empty();
                map.insert(ev, id);
                let ghost old_entries = self.collection_subscriptions@;
                let entry = (collection.clone(), map);
                proof {
                    assert(entry.0@ == collection@);
                }
                self.collection_subscriptions.push(entry);
                proof {
                    lemma_assoc_push(old_entries, entry, collection@);
                    assert forall|a: int, b: int|
                        0 <= a < b < self.collection_subscriptions@.len() implies (
                    #[trigger] self.collection_subscriptions@[a]).0@ != (
                    #[trigger] self.collection_subscriptions@[b]).0@ by {
                        if b < old_entries.len() {
                            assert(old_entries[a].0@ != old_entries[b].0@);
                        }
                    }
                }
            },
        }
        self.next_id = self.next_id + 1;
        id
    }

    /// Computes the fan-out for one event: the handles of every subscription
    /// that must fire, in dispatch order — global subscriptions first, then
    /// the ones scoped to the given collection, each in registration order.
    pub fn call(&self, ev: HandlerEvent, collection: Option<&String>) -> (r: Vec<u64>)
        ensures
            r@ == self.dispatch_order(
                ev,
                match collection {
                    Some(c) => Some(c@),
                    None => None,
                },
            ),
    {
        let global = self.subscriptions.get(ev);
        let mut out: Vec<u64> = Vec::new();
        let mut i: usize = 0;
        let n = global.len();
        while i < n
            invariant
                n == global@.len(),
                0 <= i <= n,
                out@ == global@.take(i as int),
            decreases n - i,
        {
            out.push(global[i]);
            proof {
                assert(global@.take(i + 1) =~= global@.take(i as int).push(global@[i as int]));
            }
            i = i + 1;
        }
        proof {
            assert(global@.take(n as int) =~= global@);
        }
        if let Some(c) = collection {
            if let Some(idx) = assoc_index_of(&self.collection_subscriptions, c) {
                let entry = &self.collection_subscriptions[idx];
                let scoped = entry.1.get(ev);
                let m = scoped.len();
                let mut k: usize = 0;
                while k < m
                    invariant
                        m == scoped@.len(),
                        0 <= k <= m,
                        out@ == global@ + scoped@.take(k as int),
                    decreases m - k,
                {
                    out.push(scoped[k]);
                    proof {
                        assert(scoped@.take(k + 1) =~= scoped@.take(k as int).push(
                            scoped@[k as int],
                        ));
                        assert(global@ + scoped@.take(k + 1) =~= (global@ + scoped@.take(
                            k as int,
                        )).push(scoped@[k as int]));
                    }
                    k = k + 1;
                }
                proof {
                    assert(scoped@.take(m as int) =~= scoped@);
                }
            } else {
                proof {
                    assert(out@ =~= self.dispatch_order(ev, Some(c@)));
                }
            }
        }
        proof {
            assert(out@ =~= self.dispatch_order(
                ev,
                match collection {
                    Some(c) => Some(c@),
                    None => None,
                },
            ));
        }
        out
    }
}


} // verus!
