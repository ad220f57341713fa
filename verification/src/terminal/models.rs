//! Requests, answers and settings of terminal sessions.
use vstd::prelude::*;
use crate::text::{chars_of, trim, trim_chars};

verus! {

/// A request to open a terminal session.
#[derive(Clone, Debug)]
pub struct TerminalStartRequest {
    pub shell: TerminalShell,
    pub working_directory: Option<String>,
    pub cols: Option<u16>,
    pub rows: Option<u16>,
}

/// The session that was opened.
#[derive(Clone, Debug)]
pub struct TerminalStartResponse {
    pub session_id: String,
    pub shell: TerminalShell,
    pub working_directory: String,
}

/// What the user interface shows of a session.
#[derive(Clone, Debug)]
pub struct TerminalSessionInfo {
    pub session_id: String,
    pub shell: TerminalShell,
    pub working_directory: String,
    pub active: bool,
}

/// Input typed into a session.
#[derive(Clone, Debug)]
pub struct TerminalWriteRequest {
    pub session_id: String,
    pub input: String,
}

/// A new size of a session, in character cells.
#[derive(Clone, Debug)]
pub struct TerminalResizeRequest {
    pub session_id: String,
    pub cols: u16,
    pub rows: u16,
}

/// A request to close a session.
#[derive(Clone, Debug)]
pub struct TerminalStopRequest {
    pub session_id: String,
}

/// A request naming a session.
#[derive(Clone, Debug)]
pub struct TerminalSessionRequest {
    pub session_id: String,
}

#[derive(Clone, Copy, Debug)]
/// The shells a session can run.
pub enum TerminalShell {
    PowerShell,
    Cmd,
    Zsh,
    Bash,
}

/// Output read from a session.
#[derive(Clone, Debug)]
pub struct TerminalOutputEvent {
    pub session_id: String,
    pub stream: TerminalOutputStream,
    pub data: String,
}

#[derive(Clone, Copy, Debug)]
/// Where output of a session came from.
pub enum TerminalOutputStream {
    Stdout,
    Stderr,
    Exit,
}


/// The operating system the application runs on.
#[derive(Clone, Copy, Debug, PartialEq, Eq, Structural)]
pub enum Platform {
    Windows,
    MacOs,
    Other,
}

/// The program that starts a shell.
pub open spec fn program_of(shell: TerminalShell, platform: Platform) -> Seq<char> {
    match shell {
        TerminalShell::PowerShell => match platform {
            Platform::Windows => "powershell.exe"@,
            _ => "pwsh"@,
        },
        TerminalShell::Cmd => "cmd.exe"@,
        TerminalShell::Zsh => "zsh"@,
        TerminalShell::Bash => "bash"@,
    }
}

/// The shells offered on a platform: PowerShell and cmd on Windows, zsh and
/// bash on macOS, bash, zsh and PowerShell elsewhere.
pub open spec fn shell_allowed(shell: TerminalShell, platform: Platform) -> bool {
    match platform {
        Platform::Windows => shell is PowerShell || shell is Cmd,
        Platform::MacOs => shell is Zsh || shell is Bash,
        Platform::Other => shell is Bash || shell is Zsh || shell is PowerShell,
    }
}

impl TerminalShell {
    pub fn program(self, platform: Platform) -> (r: &'static str)
        ensures
            r@ == program_of(self, platform),
    {
        match self {
            TerminalShell::PowerShell => match platform {
                Platform::Windows => "powershell.exe",
                _ => "pwsh",
            },
            TerminalShell::Cmd => "cmd.exe",
            TerminalShell::Zsh => "zsh",
            TerminalShell::Bash => "bash",
        }
    }

    pub fn allowed_on_current_platform(self, platform: Platform) -> (r: bool)
        ensures
            r == shell_allowed(self, platform),
    {
        match platform {
            Platform::Windows => matches!(self, TerminalShell::PowerShell | TerminalShell::Cmd),
            Platform::MacOs => matches!(self, TerminalShell::Zsh | TerminalShell::Bash),
            Platform::Other => matches!(
                self,
                TerminalShell::Bash | TerminalShell::Zsh | TerminalShell::PowerShell
            ),
        }
    }
}

/// The size a new session opens with: 100 columns and 30 rows unless asked
/// otherwise, never fewer than 20 columns and 6 rows.
pub fn start_size(cols: Option<u16>, rows: Option<u16>) -> (r: (u16, u16))
    ensures
        r.0 == (match cols {
            Some(c) => if c < 20 {
                20
            } else {
                c
            },
            None => 100,
        }),
        r.1 == (match rows {
            Some(n) => if n < 6 {
                6
            } else {
                n
            },
            None => 30,
        }),
{
    let c = match cols {
        Some(c) => c,
        None => 100,
    };
    let r = match rows {
        Some(r) => r,
        None => 30,
    };
    resize_size(c, r)
}

/// A requested size, held to at least 20 columns and 6 rows.
pub fn resize_size(cols: u16, rows: u16) -> (r: (u16, u16))
    ensures
        r.0 == (if cols < 20 {
            20
        } else {
            cols
        }),
        r.1 == (if rows < 6 {
            6
        } else {
            rows
        }),
{
    (if cols < 20 {
        20
    } else {
        cols
    }, if rows < 6 {
        6
    } else {
        rows
    })
}

/// The working directory asked for, unless it is blank (then the current
/// directory is used).
pub fn requested_working_directory(requested: Option<String>) -> (r: Option<String>)
    ensures
        match requested {
            Some(p) => if trim(p@).len() > 0 {
                r matches Some(q) && q@ == p@
            } else {
                r is None
            },
            None => r is None,
        },
{
    match requested {
        Some(path) => {
            let chars = chars_of(path.as_str());
            let t = trim_chars(&chars);
            if t.len() > 0 {
                Some(path)
            } else {
                None
            }
        },
        None => None,
    }
}

} // verus!
