//! Decoding of self-relative archive records and the rules of background
//! resource loading.

pub mod asset_id;
pub mod reader;
pub mod pointer;
pub mod activity;
pub mod cache;
pub mod loader;
