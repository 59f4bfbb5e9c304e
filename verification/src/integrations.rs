//! Integrations that decode the database's structured answers.

pub mod serde_integration;
