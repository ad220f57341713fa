//! The decisions around a running terminal session: whether its shell may be
//! started, and what each read of its output is reported as.
use vstd::prelude::*;
use crate::models::{is_error, CommandError};
use crate::terminal::models::{Platform, TerminalOutputEvent, TerminalOutputStream, TerminalShell, shell_allowed};
use crate::terminal::parser::{lossy_utf8, TerminalParser};
use crate::text::owned;

verus! {

/// How a read of a session's output went.
pub enum ReadOutcome {
    /// The session ended: nothing more can be read.
    Closed,
    /// Some bytes were read.
    Data(Vec<u8>),
    /// Reading failed, with the error's message.
    Failed(String),
}

/// Checks that a shell may be started on this platform.
pub fn check_shell(shell: TerminalShell, platform: Platform) -> (r: Result<(), CommandError>)
    ensures
        shell_allowed(shell, platform) ==> r is Ok,
        !shell_allowed(shell, platform) ==> (r matches Err(e) && is_error(
            e,
            "terminalFailed"@,
            "shell is not supported on this platform"@,
        )),
{
    if shell.allowed_on_current_platform(platform) {
        Ok(())
    } else {
        Err(CommandError::terminal_failed("shell is not supported on this platform"))
    }
}

/// The event reported for a read of a session's output, and whether reading
/// goes on: the end of the session and a failure stop it.
pub fn output_event(session_id: &str, read: ReadOutcome) -> (r: (TerminalOutputEvent, bool))
    ensures
        r.0.session_id@ == session_id@,
        match read {
            ReadOutcome::Closed => r.0.stream == TerminalOutputStream::Exit && r.0.data@.len() == 0 && !r.1,
            ReadOutcome::Data(bytes) => r.0.stream == TerminalOutputStream::Stdout && r.0.data@ == lossy_utf8(bytes@) && r.1,
            ReadOutcome::Failed(message) => r.0.stream == TerminalOutputStream::Stderr && r.0.data@ == message@ && !r.1,
        },
{
    match read {
        ReadOutcome::Closed => (
            TerminalOutputEvent { session_id: owned(session_id), stream: TerminalOutputStream::Exit, data: String::new() },
            false,
        ),
        ReadOutcome::Data(bytes) => (
            TerminalOutputEvent {
                session_id: owned(session_id),
                stream: TerminalOutputStream::Stdout,
                data: TerminalParser::decode(bytes.as_slice()),
            },
            true,
        ),
        ReadOutcome::Failed(message) => (
            TerminalOutputEvent { session_id: owned(session_id), stream: TerminalOutputStream::Stderr, data: message },
            false,
        ),
    }
}

} // verus!
