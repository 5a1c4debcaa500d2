//! A change-data-capture consumer for ArangoDB's replication log: it follows
//! the log from a tick cursor, reassembles multi-document transactions out of
//! the interleaved record stream, and fans every committed document mutation
//! out to registered subscriptions, globally and per collection.
//!
//! The crate holds the verified core: the record parser, the transaction
//! buffer state machine, the subscription registry with its dispatch order,
//! and the follow-cycle control logic. The HTTP transport and the handler
//! callbacks sit outside, feed these functions with plain values, and run
//! the dispatches they hand back.

pub mod api;
pub mod assoc;
pub mod config;
pub mod connection;
pub mod deserialize;
pub mod errors;
pub mod events;
pub mod laws;
pub mod trigger;
pub mod utils;

pub use config::TriggerConfig;
pub use connection::Connection;
pub use errors::{ArangoDBError, Error, Io, Kind, MapCrateError, Result};
pub use events::{HandlerContext, HandlerContextFactory, HandlerEvent, SubscriptionManager};
pub use trigger::{
    CycleOutcome, Dispatch, FollowAction, Transaction, TransactionOperation, Trigger,
    TriggerAuthentication,
};
