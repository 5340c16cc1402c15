//! Ingestion of indexed grant records (programs, rounds, projects, votes) into
//! a relational store, tagged by chain: cursor pagination over the provider,
//! chain tagging, batched insert-or-ignore loading, and the per-chain run.
pub mod models;
pub mod paging;
pub mod tagging;
pub mod loading;
pub mod chain;
pub mod run;
