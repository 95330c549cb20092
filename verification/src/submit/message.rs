use vstd::prelude::*;

use crate::submit::report::{Report, ReportView};
use crate::submit::verdict::Verdict;

verus! {

/// One event on the stream to the submitter.
#[derive(Clone, Debug, PartialEq, Eq, Hash)]
pub enum Message {
    /// Queued for judging
    Queued { total: u32, uuid: String },
    /// Indicates that the compile step has been started (optional)
    Compiling,
    /// Provides compiler warnings and errors (optional)
    CompilerOutput { exit_code: i32, stderr: String },
    /// Judging status
    Judging { verdict: Verdict },
    /// Tests were skipped due to exceeding resource usage
    Skipping { estimated_count: u32 },
    /// Broken pipe error encountered, code may not be performing I/O correctly
    BrokenPipe,
    /// Judging completed successfully (final)
    Done { report: Report },
    /// The judge experienced an internal error (final)
    Error { reason: String },
}

/// A [`Message`] as plain values.
pub enum MessageView {
    Queued { total: u32, uuid: Seq<char> },
    Compiling,
    CompilerOutput { exit_code: i32, stderr: Seq<char> },
    Judging { verdict: Verdict },
    Skipping { estimated_count: u32 },
    BrokenPipe,
    Done { report: ReportView },
    Error { reason: Seq<char> },
}

impl View for Message {
    type V = MessageView;

    open spec fn view(&self) -> MessageView {
        match self {
            Message::Queued { total, uuid } => MessageView::Queued { total: *total, uuid: uuid@ },
            Message::Compiling => MessageView::Compiling,
            Message::CompilerOutput { exit_code, stderr } => MessageView::CompilerOutput {
                exit_code: *exit_code,
                stderr: stderr@,
            },
            Message::Judging { verdict } => MessageView::Judging { verdict: *verdict },
            Message::Skipping { estimated_count } => MessageView::Skipping {
                estimated_count: *estimated_count,
            },
            Message::BrokenPipe => MessageView::BrokenPipe,
            Message::Done { report } => MessageView::Done { report: report@ },
            Message::Error { reason } => MessageView::Error { reason: reason@ },
        }
    }
}

impl MessageView {
    /// `Done` and `Error` end the stream.
    pub open spec fn is_terminal(self) -> bool {
        self is Done || self is Error
    }
}

impl Message {
    /// Whether this message ends the stream.
    pub fn is_terminal(&self) -> (r: bool)
        ensures
            r == self@.is_terminal(),
    {
        match self {
            Message::Done { .. } => true,
            Message::Error { .. } => true,
            _ => false,
        }
    }
}

/// A list of messages as plain values.
pub open spec fn views(messages: Seq<Message>) -> Seq<MessageView> {
    Seq::new(messages.len(), |i: int| messages[i]@)
}

} // verus!
