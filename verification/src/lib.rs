//! Verified core of Hocket project storage and Strophe host decisions.

pub mod error;
pub mod host;
pub mod identity;
pub mod media_format;
pub mod media_ref;
pub mod project_store;
pub mod text;
pub mod view;
