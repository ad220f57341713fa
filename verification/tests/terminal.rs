use prism::terminal::manager::{TerminalManager, TerminalSessionRecord};
use prism::terminal::models::{
    requested_working_directory, resize_size, start_size, Platform, TerminalOutputStream,
    TerminalShell,
};
use prism::terminal::parser::TerminalParser;
use prism::terminal::session::{check_shell, output_event, ReadOutcome};

fn record(id: &str, dir: &str) -> TerminalSessionRecord {
    TerminalSessionRecord {
        session_id: id.to_string(),
        shell: TerminalShell::Bash,
        working_directory: dir.to_string(),
    }
}

#[test]
fn created_session_becomes_active_and_is_found() {
    let mut manager = TerminalManager::new();
    assert!(manager.active_session().is_none());
    assert_eq!(manager.create_session(record("a", "/tmp")), "a");
    assert_eq!(manager.create_session(record("b", "/home")), "b");
    assert_eq!(manager.get_session("a").unwrap().working_directory, "/tmp");
    assert_eq!(manager.active_session().unwrap().session_id, "b");
    let info = manager.session_info("a").unwrap();
    assert!(!info.active);
    assert_eq!(info.working_directory, "/tmp");
    assert!(manager.active_session_info().unwrap().active);
}

#[test]
fn creating_with_an_existing_id_replaces_the_session() {
    let mut manager = TerminalManager::new();
    manager.create_session(record("a", "/tmp"));
    manager.create_session(record("a", "/var"));
    assert_eq!(manager.get_session("a").unwrap().working_directory, "/var");
    assert!(manager.remove_session("a").is_some());
    assert!(manager.remove_session("a").is_none());
}

#[test]
fn removing_the_active_session_activates_the_first_remaining() {
    let mut manager = TerminalManager::new();
    manager.create_session(record("a", "/1"));
    manager.create_session(record("b", "/2"));
    manager.create_session(record("c", "/3"));
    let removed = manager.remove_session("c").expect("removed");
    assert_eq!(removed.working_directory, "/3");
    assert_eq!(manager.active_session().unwrap().session_id, "a");
    assert!(manager.get_session("c").is_err());
    manager.remove_session("a");
    assert_eq!(manager.active_session().unwrap().session_id, "b");
    manager.remove_session("b");
    assert!(manager.active_session().is_none());
}

#[test]
fn removing_another_session_keeps_the_active_one() {
    let mut manager = TerminalManager::new();
    manager.create_session(record("a", "/1"));
    manager.create_session(record("b", "/2"));
    manager.remove_session("a");
    assert_eq!(manager.active_session().unwrap().session_id, "b");
}

#[test]
fn unknown_sessions_are_reported() {
    let mut manager = TerminalManager::new();
    manager.create_session(record("a", "/1"));
    let error = manager.set_active_session("zzz").unwrap_err();
    assert_eq!(error.code, "terminalFailed");
    assert_eq!(error.message, "terminal session was not found");
    assert_eq!(manager.active_session().unwrap().session_id, "a");
    assert!(manager.session_info("zzz").is_err());
    manager.create_session(record("b", "/2"));
    assert!(manager.set_active_session("a").is_ok());
    assert_eq!(manager.active_session().unwrap().session_id, "a");
}

#[test]
fn shells_and_programs_per_platform() {
    assert_eq!(TerminalShell::PowerShell.program(Platform::Windows), "powershell.exe");
    assert_eq!(TerminalShell::PowerShell.program(Platform::Other), "pwsh");
    assert_eq!(TerminalShell::Cmd.program(Platform::Windows), "cmd.exe");
    assert!(check_shell(TerminalShell::Cmd, Platform::Windows).is_ok());
    assert!(check_shell(TerminalShell::Zsh, Platform::MacOs).is_ok());
    assert!(check_shell(TerminalShell::PowerShell, Platform::Other).is_ok());
    let error = check_shell(TerminalShell::Cmd, Platform::MacOs).unwrap_err();
    assert_eq!(error.code, "terminalFailed");
    assert_eq!(error.message, "shell is not supported on this platform");
    assert!(check_shell(TerminalShell::Bash, Platform::Windows).is_err());
}

#[test]
fn sizes_have_defaults_and_minimums() {
    assert_eq!(start_size(None, None), (100, 30));
    assert_eq!(start_size(Some(5), Some(2)), (20, 6));
    assert_eq!(start_size(Some(120), Some(40)), (120, 40));
    assert_eq!(resize_size(0, 0), (20, 6));
    assert_eq!(resize_size(80, 24), (80, 24));
}

#[test]
fn blank_working_directories_are_ignored() {
    assert_eq!(requested_working_directory(None), None);
    assert_eq!(requested_working_directory(Some("  ".to_string())), None);
    assert_eq!(
        requested_working_directory(Some(" /tmp ".to_string())),
        Some(" /tmp ".to_string())
    );
}

#[test]
fn reads_become_output_events() {
    let (event, go_on) = output_event("s1", ReadOutcome::Data(b"hi \xff".to_vec()));
    assert_eq!(event.session_id, "s1");
    assert!(matches!(event.stream, TerminalOutputStream::Stdout));
    assert_eq!(event.data, "hi \u{FFFD}");
    assert!(go_on);
    let (event, go_on) = output_event("s1", ReadOutcome::Closed);
    assert!(matches!(event.stream, TerminalOutputStream::Exit));
    assert!(event.data.is_empty());
    assert!(!go_on);
    let (event, go_on) = output_event("s1", ReadOutcome::Failed("broken pipe".to_string()));
    assert!(matches!(event.stream, TerminalOutputStream::Stderr));
    assert_eq!(event.data, "broken pipe");
    assert!(!go_on);
}

#[test]
fn valid_utf8_decodes_unchanged() {
    assert_eq!(TerminalParser::decode("héllo".as_bytes()), "héllo");
}

#[test]
fn invalid_bytes_become_replacement_characters() {
    assert_eq!(TerminalParser::decode(&[0xff]), "\u{FFFD}");
    assert_eq!(TerminalParser::decode(&[b'o', b'k', 0x80]), "ok\u{FFFD}");
}
