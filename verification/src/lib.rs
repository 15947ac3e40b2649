//! Typed boundary to a native PDF-to-JSON extraction engine.
//!
//! The crate owns the logic on the near side of two native entry points
//! (whole-document extraction into JSON artifact files, and single-page
//! extraction into an in-memory JSON payload): schema normalization of the
//! extracted content blocks, including the reconciliation of two legacy
//! bounding-box encodings; resolution of the output location; discovery and
//! ordering of per-page artifacts; and a structured error taxonomy covering
//! native, filesystem, and payload-shape failures.
//!
//! The native calls themselves, and all filesystem reads and writes, happen
//! outside this crate; callers hand the results in as plain values.

pub mod aggregate;
pub mod artifacts;
pub mod errors;
pub mod gateway;
pub mod json_value;
pub mod output;
pub mod schema;
