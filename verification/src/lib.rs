//! Streaming filter pipeline for object listings.
//!
//! A listing is a header line followed by one line per stored object. This
//! crate holds the rules of that stream: the header and record models, the
//! predicate that decides which records survive, and the state machine that
//! takes records in at a bounded concurrency and hands complete lines to a
//! single writer. Reading, writing and text encoding are left to the caller.

pub mod error;
pub mod find;
pub mod line;
pub mod pattern;
pub mod pipeline;
pub mod preamble;
pub mod record;
pub mod root;
pub mod timestamp;

pub use error::FindError;
pub use find::{Criteria, Evidence, Filter, Find};
pub use line::Line;
pub use pattern::Pattern;
pub use pipeline::{Pipeline, Step, DEFAULT_CONCURRENCY, QUEUE_CAPACITY};
pub use preamble::{HeaderFields, Preamble};
pub use record::{ObjectExport, ObjectMeta, RecordView};
pub use root::RootSource;
pub use timestamp::{Instant, Timestamp};
