//! Relay coordination for a client of a federated publish/subscribe event
//! network: per-relay records, relay selection, and the control-plane
//! messages and job bookkeeping between the coordinator and its workers.

pub mod comms;
pub mod error;
pub mod jobs;
pub mod minion;
mod nostr;
pub mod registry;
pub mod relay;
pub mod selection;
pub mod theme;
pub mod url;
