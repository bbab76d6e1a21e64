//! A structured-log composition engine for Google Cloud style logging.
//!
//! The crate accumulates contextual attributes attached to nested spans,
//! and, when an event fires, merges the event's own fields with all
//! ancestor context into one flat record and renders it as a single
//! JSON line.

pub mod compose;
pub mod context;
pub mod json;
pub mod laws;
pub mod layer;
pub mod record;
pub mod severity;
pub mod store;
pub mod text;

pub use compose::compose;
pub use context::HttpMethod;
pub use context::SpanContext;
pub use json::to_json_line;
pub use layer::GcpLayer;
pub use record::HttpRequest;
pub use record::LogRecord;
pub use record::SourceLocation;
pub use severity::EventLevel;
pub use severity::Severity;
pub use severity::severity_of;
pub use store::SpanStore;
pub use text::parse_u16;
pub use text::remove_quotes;
pub use text::str_eq;
