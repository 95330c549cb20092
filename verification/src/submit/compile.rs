use vstd::prelude::*;

use crate::sandbox::{Output, OutputView};
use crate::submit::message::{Message, MessageView};
use crate::text::{decoded, text_of};

verus! {

/// The exit code reported for a compiler that was terminated by a signal.
pub const SIGNALLED_EXIT_CODE: i32 = -1;

/// What the compile stage concludes from the compiler's run.
pub struct Compilation {
    /// Whether judging may go on.
    pub success: bool,
    /// The compiler's diagnostics, where there are any to pass on.
    pub message: Option<Message>,
}

/// A [`Compilation`] as plain values.
pub struct CompilationView {
    pub success: bool,
    pub message: Option<MessageView>,
}

impl View for Compilation {
    type V = CompilationView;

    open spec fn view(&self) -> CompilationView {
        CompilationView {
            success: self.success,
            message: match self.message {
                Some(message) => Some(message@),
                None => None,
            },
        }
    }
}

/// The exit code shown to the submitter.
pub open spec fn shown_exit_code(output: OutputView) -> i32 {
    match output.exit_status.spec_code() {
        Some(code) => code,
        None => SIGNALLED_EXIT_CODE,
    }
}

/// The diagnostics shown to the submitter: what the compiler wrote to
/// standard error, or nothing where that is no text.
pub open spec fn shown_stderr(output: OutputView) -> Seq<char> {
    match decoded(output.stderr) {
        Some(text) => text,
        None => Seq::empty(),
    }
}

/// The message that carries the compiler's diagnostics.
pub open spec fn compiler_output(output: OutputView) -> MessageView {
    MessageView::CompilerOutput {
        exit_code: shown_exit_code(output),
        stderr: shown_stderr(output),
    }
}

/// A compiler that exits with code 0 has succeeded, and its diagnostics are
/// passed on only if it wrote any; every other ending is a failure, and is
/// always reported.
pub open spec fn compilation(output: OutputView) -> CompilationView {
    if output.exit_status.spec_success() {
        CompilationView {
            success: true,
            message: if output.stderr.len() > 0 {
                Some(compiler_output(output))
            } else {
                None
            },
        }
    } else {
        CompilationView { success: false, message: Some(compiler_output(output)) }
    }
}

/// The message that carries the compiler's diagnostics.
pub fn diagnostics(output: &Output) -> (message: Message)
    ensures
        message@ == compiler_output(output@),
{
    let exit_code = match output.exit_status().code() {
        Some(code) => code,
        None => SIGNALLED_EXIT_CODE,
    };
    let stderr = match text_of(output.stderr()) {
        Some(text) => text.to_owned(),
        None => String::new(),
    };
    Message::CompilerOutput { exit_code, stderr }
}

/// Concludes the compile stage from the compiler's run.
pub fn compile(output: &Output) -> (result: Compilation)
    ensures
        result@ == compilation(output@),
{
    if output.exit_status().success() {
        if output.stderr().len() > 0 {
            Compilation { success: true, message: Some(diagnostics(output)) }
        } else {
            Compilation { success: true, message: None }
        }
    } else {
        Compilation { success: false, message: Some(diagnostics(output)) }
    }
}

} // verus!
