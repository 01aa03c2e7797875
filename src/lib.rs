//! Verified core of a bulk table extractor: schema and key introspection
//! decisions, partition planning, row-to-column conversion and the pipeline
//! bookkeeping that drives a columnar dump of one database table.
pub mod plan;
pub mod text;
pub mod metadata;
pub mod convert;
pub mod pipeline;
pub mod sequential;
pub mod pool;
pub mod config;
pub mod query;

pub use config::ExtractorConfig;
