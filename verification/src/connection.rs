use vstd::prelude::*;
use vstd::string::StringExecFns;

verus! {

/// Connection details for one ArangoDB instance: the host, the database and
/// the collections of interest.
pub struct Connection {
    pub host: String,
    pub database: Option<String>,
    pub collections: Option<Vec<String>>,
    started: bool,
}

impl Connection {
    /// True once the connection has been started.
    pub closed spec fn spec_started(&self) -> bool {
        self.started
    }

    /// The host held.
    pub closed spec fn spec_host(&self) -> Seq<char> {
        self.host@
    }

    /// The database held, viewed, if one is set.
    pub closed spec fn spec_database(&self) -> Option<Seq<char>> {
        match self.database {
            Some(d) => Some(d@),
            None => None,
        }
    }

    /// The collections held, if set.
    pub closed spec fn spec_collections(&self) -> Option<Seq<String>> {
        match self.collections {
            Some(c) => Some(c@),
            None => None,
        }
    }

    /// Marks the connection started and consumes it.
    pub fn start(self) {
        let mut c = self;
        c.started = true;
    }

    /// Marks the connection stopped and consumes it.
    pub fn stop(self) {
        let mut c = self;
        c.started = false;
    }

    /// Placeholder for subscribing to every configured collection.
    pub fn subscribe(&self) {
    }

    /// Placeholder for unsubscribing from the given collections.
    pub fn unsubscribe(&self, collection: Vec<&str>) {
    }
}

impl Default for Connection {
    /// A local unauthenticated instance with the default database and no
    /// collections, not yet started.
    fn default() -> (r: Self)
        ensures
            r.spec_host() == "http://localhost:8529/"@,
            r.spec_database() == Some("_system"@),
            r.spec_collections() == Some(Seq::<String>::empty()),
            !r.spec_started(),
    {
        Connection {
            host: String::from_str("http://localhost:8529/"),
            database: Some(String::from_str("_system")),
            collections: Some(Vec::new()),
            started: false,
        }
    }
}

} // verus!
