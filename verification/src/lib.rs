//! Live distribution of a periodically refreshed logo image.
//!
//! The crate holds the description of the logo, its rasterisation, the cache
//! that detects changes, the registry of connected listeners, the decisions
//! of the update cycle and the statements and replies of the history. Verus
//! proves the contracts of its functions. The few functions that call into
//! another crate are marked `external_body`: their contracts are taken on
//! trust, and each says above its header what it claims of the call.

pub mod color;
pub mod description;
pub mod logo;
pub mod cells;
pub mod cache;
pub mod live;
pub mod update;
pub mod db;
