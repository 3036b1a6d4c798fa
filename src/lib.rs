//! Job orchestration for fetching, cutting and transcoding remote videos:
//! progress-line extraction, a typed variable bag, stage pipelines, a job
//! registry and a cache of completed downloads.

pub mod text;
pub mod keyed;
pub mod bag;
pub mod progress_line;
pub mod store;
pub mod paths;
pub mod stages;
pub mod pipeline;
pub mod registry;
pub mod manager;

pub use text::{fmt_string_error, string_error};
pub use store::initialize_data;
