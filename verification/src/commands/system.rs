//! The native tools of Windows and macOS, and the Windows settings, that the
//! user can reach from the application.
use vstd::prelude::*;
use crate::models::{is_error, CommandError};
use crate::terminal::models::Platform;
use crate::text::{chars_of, concat_str, equals_str, owned, string_of};

verus! {

/// A program to start and its arguments.
pub struct Launch {
    pub program: String,
    pub args: Vec<String>,
}

pub open spec fn launch_view(l: Launch) -> (Seq<char>, Seq<Seq<char>>) {
    (l.program@, l.args@.map_values(|s: String| s@))
}

/// The program and arguments that open a native tool on Windows, by its id.
pub open spec fn windows_tool_of(id: Seq<char>) -> Option<(Seq<char>, Seq<Seq<char>>)> {
    if id == "envVariables"@ {
        Some((
            "powershell.exe"@,
            seq![
                "-NoProfile"@,
                "-ExecutionPolicy"@,
                "Bypass"@,
                "-Command"@,
                "Start-Process rundll32.exe -ArgumentList 'sysdm.cpl,EditEnvironmentVariables' -Verb RunAs"@,
            ],
        ))
    } else if id == "taskManager"@ {
        Some(("taskmgr.exe"@, Seq::empty()))
    } else if id == "systemSettings"@ {
        Some(("explorer.exe"@, seq!["ms-settings:about"@]))
    } else if id == "diskManager"@ {
        Some(("cmd.exe"@, seq!["/C"@, "start"@, Seq::empty(), "diskmgmt.msc"@]))
    } else if id == "terminal"@ {
        Some(("wt.exe"@, Seq::empty()))
    } else if id == "snippingTool"@ {
        Some(("explorer.exe"@, seq!["shell:AppsFolder\\Microsoft.ScreenSketch_8wekyb3d8bbwe!App"@]))
    } else {
        None
    }
}

/// The program and arguments that open a native tool on macOS, by its id:
/// Activity Monitor, System Settings, Disk Utility, Terminal, the environment
/// (`env` run in Terminal) and Screenshot.
pub open spec fn macos_tool_of(id: Seq<char>) -> Option<(Seq<char>, Seq<Seq<char>>)> {
    if id == "envVariables"@ {
        Some(("/usr/bin/open"@, seq!["-a"@, "Terminal"@, "/usr/bin/env"@]))
    } else if id == "taskManager"@ {
        Some(("/usr/bin/open"@, seq!["-a"@, "Activity Monitor"@]))
    } else if id == "systemSettings"@ {
        Some(("/usr/bin/open"@, seq!["-b"@, "com.apple.systempreferences"@]))
    } else if id == "diskManager"@ {
        Some(("/usr/bin/open"@, seq!["-a"@, "Disk Utility"@]))
    } else if id == "terminal"@ {
        Some(("/usr/bin/open"@, seq!["-a"@, "Terminal"@]))
    } else if id == "snippingTool"@ {
        Some(("/usr/bin/open"@, seq!["-a"@, "Screenshot"@]))
    } else {
        None
    }
}

/// The decimal digits of `n`.
pub open spec fn decimal(n: nat) -> Seq<char>
    decreases n,
{
    if n < 10 {
        seq![(('0' as nat) + n) as char]
    } else {
        decimal(n / 10).push((('0' as nat) + n % 10) as char)
    }
}

/// A change to the registry entry that starts the application with Windows.
pub enum RunKeyChange {
    /// Set the value `name` to `value`.
    SetValue { name: String, value: String },
    /// Delete the value `legacy_name` if it is there, then the value `name`.
    RemoveValues { legacy_name: String, name: String },
}

fn launch(program: &str, args: Vec<String>) -> (r: Launch)
    ensures
        r.program@ == program@,
        r.args@ == args@,
{
    Launch { program: owned(program), args }
}

/// How a native tool is opened: on Windows and on macOS, for the tools
/// offered there; other platforms have none.
pub fn open_native_tool(tool_id: &str, platform: Platform) -> (r: Result<Launch, CommandError>)
    ensures
        platform == Platform::Other ==> (r matches Err(e) && is_error(
            e,
            "nativeToolFailed"@,
            "native tools are only available on Windows"@,
        )),
        platform == Platform::Windows ==> match windows_tool_of(tool_id@) {
            Some(t) => r matches Ok(l) && launch_view(l) == t,
            None => r matches Err(e) && is_error(e, "nativeToolFailed"@, "unknown native tool"@),
        },
        platform == Platform::MacOs ==> match macos_tool_of(tool_id@) {
            Some(t) => r matches Ok(l) && launch_view(l) == t,
            None => r matches Err(e) && is_error(e, "nativeToolFailed"@, "unknown native tool"@),
        },
{
    match platform {
        Platform::Windows => windows_tool(tool_id),
        Platform::MacOs => macos_tool(tool_id),
        Platform::Other => Err(CommandError::native_tool_failed("native tools are only available on Windows")),
    }
}

fn macos_tool(tool_id: &str) -> (r: Result<Launch, CommandError>)
    ensures
        match macos_tool_of(tool_id@) {
            Some(t) => r matches Ok(l) && launch_view(l) == t,
            None => r matches Err(e) && is_error(e, "nativeToolFailed"@, "unknown native tool"@),
        },
{
    let id = chars_of(tool_id);
    proof {
        reveal_strlit("envVariables");
        reveal_strlit("taskManager");
        reveal_strlit("systemSettings");
        reveal_strlit("diskManager");
        reveal_strlit("terminal");
        reveal_strlit("snippingTool");
        assert("envVariables"@.len() == 12);
        assert("taskManager"@.len() == 11);
        assert("systemSettings"@.len() == 14);
        assert("diskManager"@.len() == 11);
        assert("terminal"@.len() == 8);
        assert("snippingTool"@.len() == 12);
    }
    let mut args: Vec<String> = Vec::new();
    if equals_str(&id, "envVariables") {
        args.push(owned("-a"));
        args.push(owned("Terminal"));
        args.push(owned("/usr/bin/env"));
    } else if equals_str(&id, "taskManager") {
        args.push(owned("-a"));
        args.push(owned("Activity Monitor"));
    } else if equals_str(&id, "systemSettings") {
        args.push(owned("-b"));
        args.push(owned("com.apple.systempreferences"));
    } else if equals_str(&id, "diskManager") {
        args.push(owned("-a"));
        args.push(owned("Disk Utility"));
    } else if equals_str(&id, "terminal") {
        args.push(owned("-a"));
        args.push(owned("Terminal"));
    } else if equals_str(&id, "snippingTool") {
        args.push(owned("-a"));
        args.push(owned("Screenshot"));
    } else {
        return Err(CommandError::native_tool_failed("unknown native tool"));
    }
    let r = launch("/usr/bin/open", args);
    assert(launch_view(r) =~= macos_tool_of(tool_id@)->0);
    Ok(r)
}

fn windows_tool(tool_id: &str) -> (r: Result<Launch, CommandError>)
    ensures
        match windows_tool_of(tool_id@) {
            Some(t) => r matches Ok(l) && launch_view(l) == t,
            None => r matches Err(e) && is_error(e, "nativeToolFailed"@, "unknown native tool"@),
        },
{
    let id = chars_of(tool_id);
    proof {
        reveal_strlit("envVariables");
        reveal_strlit("taskManager");
        reveal_strlit("systemSettings");
        reveal_strlit("diskManager");
        reveal_strlit("terminal");
        reveal_strlit("snippingTool");
        assert("envVariables"@.len() == 12);
        assert("taskManager"@.len() == 11);
        assert("systemSettings"@.len() == 14);
        assert("diskManager"@.len() == 11);
        assert("terminal"@.len() == 8);
        assert("snippingTool"@.len() == 12);
    }
    let mut args: Vec<String> = Vec::new();
    let r = if equals_str(&id, "envVariables") {
        args.push(owned("-NoProfile"));
        args.push(owned("-ExecutionPolicy"));
        args.push(owned("Bypass"));
        args.push(owned("-Command"));
        args.push(owned("Start-Process rundll32.exe -ArgumentList 'sysdm.cpl,EditEnvironmentVariables' -Verb RunAs"));
        launch("powershell.exe", args)
    } else if equals_str(&id, "taskManager") {
        launch("taskmgr.exe", args)
    } else if equals_str(&id, "systemSettings") {
        args.push(owned("ms-settings:about"));
        launch("explorer.exe", args)
    } else if equals_str(&id, "diskManager") {
        args.push(owned("/C"));
        args.push(owned("start"));
        args.push(String::new());
        args.push(owned("diskmgmt.msc"));
        launch("cmd.exe", args)
    } else if equals_str(&id, "terminal") {
        launch("wt.exe", args)
    } else if equals_str(&id, "snippingTool") {
        args.push(owned("shell:AppsFolder\\Microsoft.ScreenSketch_8wekyb3d8bbwe!App"));
        launch("explorer.exe", args)
    } else {
        return Err(CommandError::native_tool_failed("unknown native tool"));
    };
    assert(launch_view(r) =~= windows_tool_of(tool_id@)->0);
    Ok(r)
}

/// The decimal digits of `n`.
pub fn decimal_text(n: u64) -> (r: String)
    ensures
        r@ == decimal(n as nat),
{
    let mut digits: Vec<char> = Vec::new();
    let mut m: u64 = n;
    assert(decimal(n as nat) =~= decimal(m as nat) + digits@);
    while m >= 10
        invariant
            m <= n,
            decimal(n as nat) == decimal(m as nat) + digits@,
        decreases m,
    {
        let d: u8 = (m % 10) as u8;
        let c: char = ('0' as u8 + d) as char;
        assert(c == (('0' as nat) + m % 10) as char);
        digits.insert(0, c);
        assert(decimal(m as nat) == decimal((m / 10) as nat).push(c));
        m = m / 10;
        assert(decimal(n as nat) =~= decimal(m as nat) + digits@);
    }
    let d: u8 = m as u8;
    let c: char = ('0' as u8 + d) as char;
    assert(c == (('0' as nat) + m) as char);
    digits.insert(0, c);
    assert(decimal(m as nat) == seq![c]);
    assert(decimal(n as nat) =~= digits@);
    string_of(&digits)
}

/// The arguments of `taskkill` that end a process; only on Windows.
pub fn terminate_process_args(pid: u32, platform: Platform) -> (r: Result<Vec<String>, CommandError>)
    ensures
        platform != Platform::Windows ==> (r matches Err(e) && is_error(
            e,
            "processActionFailed"@,
            "process termination is only available on Windows"@,
        )),
        platform == Platform::Windows ==> (r matches Ok(a) && a@.map_values(|s: String| s@) == seq![
            "/PID"@,
            decimal(pid as nat),
            "/F"@,
        ]),
{
    if platform != Platform::Windows {
        return Err(CommandError::process_action_failed("process termination is only available on Windows"));
    }
    let mut args: Vec<String> = Vec::new();
    args.push(owned("/PID"));
    args.push(decimal_text(pid as u64));
    args.push(owned("/F"));
    assert(args@.map_values(|s: String| s@) =~= seq!["/PID"@, decimal(pid as nat), "/F"@]);
    Ok(args)
}

/// The error when `taskkill` ends with a failure status (`status` as displayed).
pub fn taskkill_failure(status: &str) -> (r: CommandError)
    ensures
        is_error(r, "processActionFailed"@, "taskkill exited with "@ + status@),
{
    let m = concat_str("taskkill exited with ", status);
    CommandError::process_action_failed(m.as_str())
}

/// The change to the registry that makes the application start with Windows
/// (the executable at `exe_path`, quoted) or stop doing so; only on Windows.
pub fn start_with_windows(enabled: bool, platform: Platform, exe_path: &str) -> (r: Result<RunKeyChange, CommandError>)
    ensures
        platform != Platform::Windows ==> (r matches Err(e) && is_error(
            e,
            "settingsFailed"@,
            "start with Windows is only available on Windows"@,
        )),
        platform == Platform::Windows && enabled ==> (r matches Ok(RunKeyChange::SetValue { name, value })
            && name@ == "Workstation Console"@ && value@ == seq!['"'] + exe_path@ + seq!['"']),
        platform == Platform::Windows && !enabled ==> (r matches Ok(RunKeyChange::RemoveValues { legacy_name, name })
            && legacy_name@ == "Matrix Process Manager"@ && name@ == "Workstation Console"@),
{
    if platform != Platform::Windows {
        return Err(CommandError::settings_failed("start with Windows is only available on Windows"));
    }
    if enabled {
        let opened = concat_str("\"", exe_path);
        let value = concat_str(opened.as_str(), "\"");
        proof {
            reveal_strlit("\"");
        }
        Ok(RunKeyChange::SetValue { name: owned("Workstation Console"), value })
    } else {
        Ok(RunKeyChange::RemoveValues { legacy_name: owned("Matrix Process Manager"), name: owned("Workstation Console") })
    }
}

} // verus!
