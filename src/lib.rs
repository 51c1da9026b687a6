//! Multi-account session core for a deck-style client of a federated social
//! network: the data model, an authenticator that keeps only fingerprints of
//! tokens durable, a registry of live sessions with health tracking, the
//! persistence contract for accounts, sessions and preferences, and the
//! commands that compose them.
pub mod auth;
pub mod commands;
pub mod database;
pub mod error;
pub mod models;
pub mod registry;
