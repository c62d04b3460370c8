//! Core of a privacy-respecting metasearch aggregator: query syntax parsing,
//! result deduplication and scoring, per-engine outcome handling, and the
//! built-in plugins, each stated and proved with Verus.

pub mod text;
pub mod query;
pub mod results;
pub mod container;
pub mod registry;
pub mod search;
pub mod plugins;
pub mod engines;
pub mod locales;
pub mod metrics;
pub mod config;

