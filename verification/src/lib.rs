//! Core logic of a command-line client for a Board -> List -> Card task
//! hierarchy: name-pattern resolution of objects, a plain-text card codec for
//! editor round trips, and the change-detection that drives updates.
//!
//! All network and process I/O stays outside this crate; callers hand in the
//! fetched data and take structured results back.
pub mod domain;
pub mod find;
pub mod text;
pub mod codec;
pub mod edit;
