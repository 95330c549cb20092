//! Judging one submission: verdicts, the report they aggregate into, the
//! messages sent to the submitter, and the pipeline that produces them.

pub mod classify;
pub mod compile;
pub mod failure;
pub mod laws;
pub mod message;
pub mod model;
pub mod pipeline;
pub mod report;
pub mod request;
pub mod subtask;
pub mod verdict;

pub use message::Message;
pub use report::{Report, TestReport};
pub use verdict::Verdict;
