//! The provider side of a gateway's plugin runtime: what a plugin may declare, what it may call,
//! what its answers are worth, and which state the gateway keeps of it.
//!
//! Every function here is pure of input and output. Where the work needs a store, a session or a
//! clock, the caller hands in what these answered, and the functions decide what comes next.

pub mod account;
pub mod address;
pub mod authorization;
pub mod billing;
pub mod catalog;
pub mod configuration;
pub mod continuation;
pub mod counting;
pub mod credential_form;
pub mod credentials;
pub mod decimal;
pub mod digest;
pub mod dispatch;
pub mod drain;
pub mod event;
pub mod execution;
pub mod extensions;
pub mod fault;
pub mod forecast;
pub mod identifier;
pub mod invalidation;
pub mod json;
pub mod maintenance;
pub mod management;
pub mod manifest;
pub mod moment;
pub mod percent;
pub mod profile;
pub mod provider;
pub mod provider_capabilities;
pub mod provider_ports;
pub mod quota;
pub mod record;
pub mod request_profile;
pub mod reset_credits;
pub mod rotation;
pub mod scope;
pub mod selection;
pub mod sorted;
pub mod table;
pub mod text;
pub mod worker;
