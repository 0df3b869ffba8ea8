//! A small error-information value type that renders itself as a structured
//! JSON payload: a single top-level `"error"` key wrapping a type tag, a
//! message, details, a numeric status code and, in one variant, a timestamp.
//!
//! The JSON text itself is produced by this crate's own verified renderer, so
//! the exact wire format (key order, string escaping, number formatting) is
//! stated and proved, not inherited from a serializer.

mod clock;
pub mod info;
pub mod json;

pub use info::ErrorInfo;
pub use info::ErrorInfoView;
