//! The core of a login server for a legacy game client.
//!
//! * [`auth`] is the state machine of one login connection. It does no I/O:
//!   the caller performs the action that a step returns and hands back what
//!   came of it. [`logon`], [`reconnect`] and [`transfer`] hold its three flows.
//! * [`keys`] stores the sessions that completed logons have established.
//! * [`realm_list`] is the registry of the realms on offer and gives out their
//!   ids, which [`realm_ids`] searches.
//! * [`messages`] and [`wire`] are the wire format of the broker, over which
//!   world servers ask for session keys and register their realms; [`reply`]
//!   answers them.
//! * [`server`] counts the connections that are served at once.
//! * [`srp`] holds what is taken on trust from the crates that compute the
//!   password proofs and digests.

pub mod auth;
pub mod credentials;
pub mod error;
pub mod keys;
pub mod logon;
pub mod messages;
pub mod protocol;
pub mod realm_ids;
pub mod realm_list;
pub mod reconnect;
pub mod reply;
pub mod server;
pub mod srp;
pub mod transfer;
pub mod wire;
