use prism::command_knowledge::indexer::GenericParser;
use prism::command_knowledge::service::{application_from_parts, CommandLineParser};
use prism::paths::join_path;
use prism::startup::StartupManager;
use prism::text::{
    chars_less, lines_of, parse_u64_chars, parse_unsigned_chars, split_on, split_whitespace,
    trim_chars, whitespace_pair,
};

fn chars(s: &str) -> Vec<char> {
    s.chars().collect()
}

fn pieces(v: Vec<Vec<char>>) -> Vec<String> {
    v.into_iter().map(|p| p.into_iter().collect()).collect()
}

#[test]
fn unicode_character_classes() {
    let parsed = GenericParser::new().parse_help("Commands:\n  straße  Goes\n  a+b  Adds\n  v2_ok  Fine\n");
    let names: Vec<&str> = parsed.subcommands.iter().map(|s| s.name.as_str()).collect();
    assert_eq!(names, vec!["straße", "v2_ok"]);
    assert_eq!(StartupManager::spaced_name("straßeÄrger"), "straße Ärger");
    assert_eq!(StartupManager::spaced_name("ÉcoleMode"), "École Mode");
    assert_eq!(StartupManager::impact("C:\\TEAMS\\Ärger.exe"), "High");
    assert!(StartupManager::is_packaged_startup_task("AUTOSTART"));
}

#[test]
fn lines_and_pieces() {
    assert_eq!(pieces(lines_of(&chars("a\r\nb\n\nc"))), vec!["a", "b", "", "c"]);
    assert_eq!(pieces(lines_of(&chars("a\n"))), vec!["a"]);
    assert!(lines_of(&chars("")).is_empty());
    assert_eq!(pieces(split_on(&chars("a||b"), '|')), vec!["a", "", "b"]);
    assert_eq!(pieces(split_whitespace(&chars("  x \t y  "))), vec!["x", "y"]);
    assert_eq!(trim_chars(&chars("\u{3000} x \n")), chars("x"));
    assert_eq!(whitespace_pair(&chars("ab  c")), Some(2));
    assert_eq!(whitespace_pair(&chars("a b c")), None);
}

#[test]
fn numbers_and_order() {
    assert_eq!(parse_u64_chars(&chars("18446744073709551615")), Some(u64::MAX));
    assert_eq!(parse_u64_chars(&chars("18446744073709551616")), None);
    assert_eq!(parse_u64_chars(&chars("+42")), Some(42));
    assert_eq!(parse_u64_chars(&chars("-1")), None);
    assert_eq!(parse_u64_chars(&chars("")), None);
    assert_eq!(parse_unsigned_chars(&chars("70000"), 65535), None);
    assert!(chars_less(&chars("ab"), &chars("b")));
    assert!(chars_less(&chars("a"), &chars("ab")));
    assert!(!chars_less(&chars("b"), &chars("b")));
}

#[test]
fn path_pieces() {
    assert_eq!(CommandLineParser::new("/usr/bin/git").application_name(), "git");
    assert_eq!(CommandLineParser::new("/usr/bin/ -x").application_name(), "bin");
    assert_eq!(CommandLineParser::new("/").application_name(), "/");
    assert_eq!(CommandLineParser::new("a/..").application_name(), "a/..");
    assert_eq!(CommandLineParser::new("archive.tar.gz").application_name(), "archive.tar");
    assert_eq!(CommandLineParser::new(".bashrc").application_name(), ".bashrc");
    assert_eq!(application_from_parts(&chars("C:\\tools\\docker.exe"), Some("docker".to_string()), Some("docker.exe".to_string())), "docker");
    assert_eq!(application_from_parts(&chars("x"), None, Some("  ".to_string())), "unknown");
    assert_eq!(application_from_parts(&chars("tok"), None, None), "tok");
    assert_eq!(GenericParser::tool_name_from(Some("Docker".to_string()), Some("Docker.exe".to_string()), "x"), "docker");
    assert_eq!(GenericParser::tool_name_from(None, Some("GIT".to_string()), "x"), "git");
    assert_eq!(GenericParser::tool_name_from(None, None, "Cargo"), "cargo");
    assert_eq!(join_path("/a", "b", '/'), "/a/b");
    assert_eq!(join_path("C:\\", "b", '\\'), "C:\\b");
    assert_eq!(join_path("", "b", '/'), "b");
}
