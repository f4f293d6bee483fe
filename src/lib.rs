//! Recovery of structured event records from byte blobs produced by one of
//! several known encoding pipelines, with a round-trip integrity verdict.
pub mod encoding;
pub mod transform;
pub mod json;
pub mod digest;
pub mod pipeline;
pub mod report;
