//! Verification of TEE attestation quotes against a provider registry.
pub mod encoding;
pub mod engine;
pub mod history;
pub mod parser;
pub mod quote_fetcher;
pub mod registry;
pub mod text;
