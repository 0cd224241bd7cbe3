//! A deduplicating string pool that hands out small copyable handles.
//!
//! Text goes in once; every later insertion of the same content yields the
//! index that was assigned the first time. Handles are resolved, compared and
//! ordered through the pool that made them, always by content.

mod entries;
pub mod laws;
pub mod pool;
pub mod text;

pub use pool::{StrPool, StrRef};
pub use text::InternError;
