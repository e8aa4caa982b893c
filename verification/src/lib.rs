//! A newsletter service in which an operator publishes an issue exactly
//! once, however often the request is repeated, and every subscriber who was
//! confirmed at that moment is sent the issue, even if the sending process
//! stops half way.
//!
//! Three parts work together. The [`idempotency`] store claims a key for a
//! command and caches its response. The publish command in
//! [`routes::admin::newsletters`] writes the issue and one delivery task per
//! confirmed subscriber in the transaction that saves the response. The
//! [`issue_delivery_worker`] drains the queue of tasks, one at a time.
//!
//! Everything here is verified with Verus against a [`database`] that is
//! held in memory, whose content the contracts describe as a mathematical
//! value. What the parts guarantee together is stated and proved in
//! [`guarantees`].

pub mod authentication;
pub mod configuration;
pub mod database;
pub mod domain;
pub mod email_client;
pub mod filters;
pub mod flash_messages;
pub mod guarantees;
pub mod http;
pub mod idempotency;
pub mod issue_delivery_worker;
pub mod routes;
pub mod startup;
pub mod telemetry;
pub mod unique_id;
pub mod utils;
