//! Core of a log aggregator: classification of lines by include and exclude
//! patterns, line counters, configuration checks and the decisions of the
//! readers and of the consumer.

pub mod aggregator;
pub mod config;
pub mod filters;
pub mod logline;
pub mod pattern;
pub mod reader;
pub mod shutdown;
pub mod stats;
pub mod text;
