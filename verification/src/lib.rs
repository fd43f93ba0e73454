//! Keeps Git checkouts of one project aligned across machines: the identities,
//! snapshots, transactions, publications, leases and hooks, as a verified library.
pub mod access;
pub mod address;
pub mod adopt;
pub mod adopt_trail;
pub mod checkout_course;
pub mod cli;
pub mod clock;
pub mod collect;
pub mod command_laws;
pub mod config;
pub mod converge;
pub mod courses;
pub mod credentials;
pub mod daemon;
pub mod delivery;
pub mod delivery_trail;
pub mod digest;
pub mod enroll;
pub mod flush;
pub mod gate;
pub mod git_state;
pub mod history;
pub mod hook_call;
pub mod hook_dispatcher;
pub mod hooks;
pub mod identity;
pub mod install;
pub mod join;
pub mod json;
pub mod lock;
pub mod materialize;
pub mod move_trail;
pub mod named_lease;
pub mod outcomes;
pub mod paths;
pub mod peer;
pub mod process;
pub mod project;
pub mod protocol;
pub mod provider;
pub mod publication;
pub mod random;
pub mod reconcile;
pub mod recover;
pub mod refresh;
pub mod refresh_trail;
pub mod remote;
pub mod rpc;
pub mod service;
pub mod shell;
pub mod startup;
pub mod state;
pub mod text;
pub mod text_laws;
pub mod text_map;
pub mod transaction;
pub mod upgrade;
pub mod validation;
pub mod workspace;

pub use protocol::{
    Catalog, CatalogProject, NamedLease, NamedLeaseListResponse, NamedLeaseMutationResponse,
    NamedLeaseOutcome, NamedLeasePolicy, PROTOCOL_VERSION,
};
