//! Foreground-application usage tracking: the ignore policy, the duration
//! aggregator, the rollup relations and the queries over them.

pub mod ignore;
pub mod text;
pub mod clock;
pub mod durations;
pub mod aggregate;
pub mod store;
pub mod timeline;
pub mod rollup;
pub mod query;
pub mod stats;
pub mod constants;
pub mod schema;
pub mod capture;
pub mod schedule;
pub mod window;
