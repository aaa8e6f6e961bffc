//! A newsletter subscription and delivery service, verified.
//!
//! Subscribers sign up and confirm by token (`subscriptions`, `domain`), an
//! authenticated administrator (`authentication`, `session_state`, `admin`)
//! publishes newsletter issues through an idempotent endpoint (`publish`,
//! `idempotency`), and a delivery worker drains a durable queue of
//! per-subscriber delivery tasks (`issue_delivery_worker`). The durable
//! tables — subscribers, tokens, issues, delivery queue, idempotency
//! records, users — are modelled by [`store::Store`], and every operation on
//! them carries a contract over the store's mathematical view. The processes
//! around this core (HTTP server, relational storage, e-mail transport,
//! configuration files) are external collaborators: they hand in plain
//! values and perform the sends, sleeps and replies the contracts describe.

pub mod admin;
pub mod authentication;
pub mod configuration;
pub mod domain;
pub mod http;
pub mod idempotency;
pub mod ipchecker;
pub mod issue_delivery_worker;
pub mod newsletter_delivery;
pub mod publish;
pub mod session_state;
pub mod startup;
pub mod store;
pub mod subscriptions;
