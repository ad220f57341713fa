use prism::command_knowledge::models::CommandAutocompleteSuggestion;
use prism::command_knowledge::scanner::{
    executable_extensions, is_unix_executable, is_windows_executable, normalized_path,
    CommandKnowledgeDatabase, CommandKnowledgeMigration, ExecutableFile,
    InstalledApplicationScanner,
};
use prism::command_knowledge::service::{
    is_indexable_name, should_index_application, should_index_for_autocomplete, CommandLineParser,
};
use prism::terminal::models::Platform;
use std::time::Duration;

fn file(path: &str, name: Option<&str>, stem: Option<&str>) -> ExecutableFile {
    ExecutableFile {
        display_path: path.to_string(),
        file_name: name.map(|s| s.to_string()),
        file_stem: stem.map(|s| s.to_string()),
    }
}

fn suggestion(line: &str) -> CommandAutocompleteSuggestion {
    CommandAutocompleteSuggestion {
        command_id: 1,
        command_line: line.to_string(),
        label: line.to_string(),
        icon: "bi-terminal".to_string(),
        description: None,
        examples: Vec::new(),
        arguments: Vec::new(),
        options: Vec::new(),
        usage_count: 0,
        score: 0,
        last_used_at: None,
        frequently_used: false,
        recently_used: false,
    }
}

#[test]
fn scanner_timeouts() {
    assert_eq!(InstalledApplicationScanner::new().version_timeout, Duration::from_millis(800));
    let scanner = InstalledApplicationScanner::with_version_timeout(Duration::from_secs(2));
    assert_eq!(scanner.version_timeout, Duration::from_secs(2));
}

#[test]
fn executables_are_named_and_found() {
    let scanner = InstalledApplicationScanner::new();
    let git = file("C:\\Git\\git.exe", Some("git.exe"), Some("git"));
    assert_eq!(scanner.application_name(&git, Platform::Windows), "git");
    assert_eq!(scanner.application_name(&git, Platform::Other), "git.exe");
    assert_eq!(scanner.application_name(&file("/x", None, None), Platform::Other), "/x");
    let files = vec![
        file("/a/node", Some("node"), Some("node")),
        file("C:\\Git\\git.exe", Some("git.exe"), Some("git")),
        file("/b/GIT", Some("GIT"), Some("GIT")),
    ];
    assert_eq!(scanner.find_by_name("Git", &files, Platform::Windows), Some(1));
    assert_eq!(scanner.find_by_name("git.EXE", &files, Platform::Other), Some(1));
    assert_eq!(scanner.find_by_name("git", &files, Platform::Other), Some(2));
    assert_eq!(scanner.find_by_name("ruby", &files, Platform::Other), None);
    let record = scanner.application_record(&git, Platform::Windows, Some("2.4".to_string()));
    assert_eq!(record.name, "git");
    assert_eq!(record.path, "C:\\Git\\git.exe");
    assert_eq!(record.version.as_deref(), Some("2.4"));
}

#[test]
fn versions_come_from_the_first_line() {
    let scanner = InstalledApplicationScanner::new();
    assert_eq!(scanner.version_from_output("\n  git version 2.44  \nmore", "").as_deref(), Some("git version 2.44"));
    assert_eq!(scanner.version_from_output("  ", "\npython 3.12\n").as_deref(), Some("python 3.12"));
    assert_eq!(scanner.version_from_output("", " \n "), None);
    let long = "v".repeat(600);
    assert_eq!(scanner.version_from_output(&long, "").unwrap().chars().count(), 512);
}

#[test]
fn duplicates_keep_their_first_occurrence() {
    let scanner = InstalledApplicationScanner::new();
    let paths = vec!["a".to_string(), "b".to_string(), "a".to_string(), "c".to_string(), "b".to_string()];
    assert_eq!(scanner.unique_files(&paths), vec![0, 1, 3]);
    assert_eq!(normalized_path("C:\\Tools\\Git.EXE", Platform::Windows), "c:\\tools\\git.exe");
    assert_eq!(normalized_path("/usr/Bin/X", Platform::MacOs), "/usr/Bin/X");
}

#[test]
fn executable_files_by_extension_or_mode() {
    assert_eq!(executable_extensions(None), vec![".COM", ".EXE", ".BAT", ".CMD"]);
    assert_eq!(executable_extensions(Some(" .exe ;;.Ps1")), vec![".EXE", ".PS1"]);
    assert!(is_windows_executable(Some("exe"), None));
    assert!(is_windows_executable(Some("Cmd"), None));
    assert!(!is_windows_executable(Some("ps1"), None));
    assert!(is_windows_executable(Some("ps1"), Some(".PS1;.EXE")));
    assert!(!is_windows_executable(None, None));
    assert!(is_unix_executable(0o755));
    assert!(is_unix_executable(0o001));
    assert!(!is_unix_executable(0o644));
}

#[test]
fn database_location_per_platform() {
    assert_eq!(
        CommandKnowledgeDatabase::database_path(Platform::Windows, Some("C:\\L"), None, None, '\\').unwrap(),
        "C:\\L\\Matrix Process Manager\\command-knowledge.sqlite"
    );
    assert_eq!(
        CommandKnowledgeDatabase::database_path(Platform::MacOs, None, Some("/Users/a"), None, '/').unwrap(),
        "/Users/a/Library/Application Support/Matrix Process Manager/command-knowledge.sqlite"
    );
    assert_eq!(
        CommandKnowledgeDatabase::database_path(Platform::Other, None, Some("/home/a"), None, '/').unwrap(),
        "/home/a/.local/share/Matrix Process Manager/command-knowledge.sqlite"
    );
    assert_eq!(
        CommandKnowledgeDatabase::database_path(Platform::Other, None, Some("/home/a"), Some("/x/"), '/').unwrap(),
        "/x/Matrix Process Manager/command-knowledge.sqlite"
    );
    let e = CommandKnowledgeDatabase::database_path(Platform::Windows, None, Some("/h"), None, '\\').unwrap_err();
    assert_eq!(e.code, "terminalFailed");
    assert_eq!(e.message, "application data directory is unavailable");
}

#[test]
fn migration_statements() {
    let columns = vec!["id".to_string(), "name".to_string()];
    assert_eq!(
        CommandKnowledgeMigration::add_column_statement("commands", "description", "text", &columns).as_deref(),
        Some("alter table commands add column description text")
    );
    assert_eq!(CommandKnowledgeMigration::add_column_statement("commands", "name", "text", &columns), None);
    assert_eq!(CommandKnowledgeMigration::table_info_statement("examples"), "pragma table_info(examples)");
}

#[test]
fn command_lines_name_their_application() {
    assert_eq!(CommandLineParser::new("  git status").application_name(), "git");
    assert_eq!(CommandLineParser::new("\"/opt/My Tool/tool.bin\" -x").application_name(), "tool");
    assert_eq!(CommandLineParser::new("/usr/bin/python3.12 -m x").application_name(), "python3");
    assert_eq!(CommandLineParser::new("my\\ app arg").application_name(), "my app");
    assert_eq!(CommandLineParser::new("   ").application_name(), "unknown");
    assert_eq!(CommandLineParser::new("'a b'c d").first_token(), "a bc".chars().collect::<Vec<char>>());
}

#[test]
fn queries_index_each_application_once() {
    let mut indexed: Vec<Vec<char>> = Vec::new();
    assert!(!should_index_for_autocomplete("Git st", &vec![suggestion("git status")], &mut indexed));
    assert!(indexed.is_empty());
    assert!(should_index_for_autocomplete("Git st", &Vec::new(), &mut indexed));
    assert_eq!(indexed, vec!["git".chars().collect::<Vec<char>>()]);
    assert!(!should_index_for_autocomplete("git log", &Vec::new(), &mut indexed));
    assert_eq!(indexed.len(), 1);
    assert!(!should_index_for_autocomplete("x", &Vec::new(), &mut indexed));
    assert!(should_index_for_autocomplete("é", &Vec::new(), &mut indexed));
    assert!(!is_indexable_name(&"unknown".chars().collect()));
    assert!(is_indexable_name(&"ab".chars().collect()));
}

#[test]
fn an_application_is_indexed_once_whatever_its_name() {
    let mut indexed: Vec<Vec<char>> = Vec::new();
    assert!(should_index_application("Docker", &Vec::new(), &mut indexed));
    assert_eq!(indexed, vec!["docker".chars().collect::<Vec<char>>()]);
    assert!(!should_index_application("docker", &Vec::new(), &mut indexed));
    assert!(!should_index_application("unknown", &Vec::new(), &mut indexed));
    assert!(!should_index_application("kubectl", &vec![suggestion("kubectl get pods")], &mut indexed));
    assert_eq!(indexed.len(), 1);
}
