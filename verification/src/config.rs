use vstd::prelude::*;

verus! {

/// Configuration for watching one collection: optionally narrowed to certain
/// event names and document keys.
pub struct TriggerConfig<'a> {
    collection: String,
    events: Option<Vec<&'a str>>,
    keys: Option<Vec<&'a str>>,
}

impl<'a> TriggerConfig<'a> {
    /// The collection watched.
    pub closed spec fn spec_collection(&self) -> Seq<char> {
        self.collection@
    }

    /// The event names watched, if narrowed.
    pub closed spec fn spec_events(&self) -> Option<Seq<&'a str>> {
        match self.events {
            Some(v) => Some(v@),
            None => None,
        }
    }

    /// The document keys watched, if narrowed.
    pub closed spec fn spec_keys(&self) -> Option<Seq<&'a str>> {
        match self.keys {
            Some(v) => Some(v@),
            None => None,
        }
    }

    /// Watches a whole collection.
    pub fn new(collection: &str) -> (r: Self)
        ensures
            r.spec_collection() == collection@,
            r.spec_events() is None,
            r.spec_keys() is None,
    {
        TriggerConfig { collection: collection.to_owned(), events: None, keys: None }
    }

    /// Watches a collection for the given event names only.
    pub fn new_with_events(collection: &str, events: Vec<&'static str>) -> (r: Self)
        ensures
            r.spec_collection() == collection@,
            r.spec_events() == Some(events@),
            r.spec_keys() is None,
    {
        TriggerConfig { collection: collection.to_owned(), events: Some(events), keys: None }
    }

    /// Watches a collection for the given event names and document keys only.
    pub fn new_with_events_and_keys(
        collection: &str,
        events: Vec<&'static str>,
        keys: Vec<&'static str>,
    ) -> (r: Self)
        ensures
            r.spec_collection() == collection@,
            r.spec_events() == Some(events@),
            r.spec_keys() == Some(keys@),
    {
        TriggerConfig {
            collection: collection.to_owned(),
            events: Some(events),
            keys: Some(keys),
        }
    }
}

} // verus!
