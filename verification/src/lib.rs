//! Newsletter publishing with idempotent request handling and an outbox
//! delivery queue.
//!
//! The crate holds the rules of the service as verified code: validated
//! domain values, the idempotency ledger, the delivery queue with its retry
//! policy, and the step functions that drive a publish request and a
//! delivery worker.

pub mod authentication;
pub mod clock;
pub mod configuration;
pub mod delivery;
pub mod domain;
pub mod email_client;
pub mod idempotency;
pub mod identifiers;
pub mod issues;
pub mod ledger;
pub mod middlewares;
pub mod orchestrator;
pub mod outbox;
pub mod publish;
pub mod response;
pub mod routes;
pub mod startup;
pub mod subscribers;
pub mod table;
pub mod text;
pub mod worker;
