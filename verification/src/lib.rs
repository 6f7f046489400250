//! Verified core of a local-first evidence engine: immutable events,
//! append-only annotations, connector contracts and factual presentation.

pub mod text;
pub mod scan;
pub mod sorted_map;
pub mod model;
pub mod connector;
pub mod order;
pub mod store;
pub mod serialization;
pub mod records;
pub mod engine;
pub mod git;
pub mod commit;
pub mod clock;
pub mod presenter;
pub mod agent;
pub mod operations;
pub mod service;
pub mod cli;
pub mod host;
