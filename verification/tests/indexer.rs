use prism::command_knowledge::indexer::{
    command_name, example_title, help_attempts, help_output, looks_like_help, parse_with,
    overview_counts, parser_for, reads_safely, CommandWalk, GenericParser, ParsedCommandHelp, ParsedSubcommand,
    ParserKind,
};
use prism::command_knowledge::models::ApplicationRecord;

const TOOL_HELP: &str = "A fast tool

Usage: tool [OPTIONS] <COMMAND>

Commands:
  build    Compile the project
  run      Run it
  [hidden] nope
Options:
  -v, --verbose        Use verbose output
  -o, --output <FILE>  Write to FILE
Examples:
  tool build --release
  notes:
";

const PNPM_HELP: &str = "Usage: pnpm [command] [flags]

Manage your dependencies:
      add                  Installs a package
   i, install              Install all dependencies
Options:
  -r, --recursive          Run recursively
";

fn app(name: &str, path: &str) -> ApplicationRecord {
    ApplicationRecord {
        id: 1,
        name: name.to_string(),
        path: path.to_string(),
        version: None,
        last_scanned_at: "0".to_string(),
    }
}

fn strings(items: &[&str]) -> Vec<String> {
    items.iter().map(|s| s.to_string()).collect()
}

#[test]
fn generic_parser_reads_sections() {
    let parsed = GenericParser::new().parse_help(TOOL_HELP);
    assert_eq!(parsed.description.as_deref(), Some("A fast tool"));
    let names: Vec<&str> = parsed.subcommands.iter().map(|s| s.name.as_str()).collect();
    assert_eq!(names, vec!["build", "run"]);
    assert_eq!(
        parsed.subcommands[0].description.as_deref(),
        Some("Compile the project")
    );
    assert_eq!(parsed.options.len(), 2);
    assert_eq!(parsed.options[0].name, "--verbose");
    assert_eq!(parsed.options[0].short_name.as_deref(), Some("-v"));
    assert_eq!(
        parsed.options[0].description.as_deref(),
        Some("Use verbose output")
    );
    assert!(!parsed.options[0].takes_value);
    assert_eq!(parsed.options[1].name, "--output");
    assert!(parsed.options[1].takes_value);
    assert_eq!(parsed.examples, vec!["tool build --release".to_string()]);
}

#[test]
fn pnpm_parser_reads_grouped_commands() {
    let parsed = parse_with(ParserKind::Pnpm, &Vec::new(), PNPM_HELP);
    let names: Vec<&str> = parsed.subcommands.iter().map(|s| s.name.as_str()).collect();
    assert_eq!(names, vec!["add", "i", "install"]);
    assert_eq!(
        parsed.subcommands[2].description.as_deref(),
        Some("Install all dependencies")
    );
    assert_eq!(parsed.options[0].name, "--recursive");
}

#[test]
fn parsers_are_chosen_by_application() {
    assert!(matches!(parser_for(&app("Docker", "/usr/bin/docker")), ParserKind::Docker));
    assert!(matches!(parser_for(&app("x", "/opt/bin/git")), ParserKind::Git));
    assert!(matches!(parser_for(&app("cargo", "/home/a/.cargo/bin/cargo")), ParserKind::Cargo));
    assert!(matches!(parser_for(&app("PNPM", "/usr/bin/pnpm")), ParserKind::Pnpm));
    assert!(matches!(parser_for(&app("foo", "/usr/bin/foo")), ParserKind::Generic));
}

#[test]
fn help_text_that_would_be_cut_inside_a_character_is_refused() {
    assert!(reads_safely(ParserKind::Generic, TOOL_HELP));
    assert!(reads_safely(ParserKind::Pnpm, PNPM_HELP));
    assert!(!reads_safely(
        ParserKind::Generic,
        "Options:\n  -a\u{3000}\u{3000}desc\n"
    ));
}

#[test]
fn command_names_and_help_attempts() {
    let git = app("git", "/usr/bin/git");
    assert_eq!(command_name(&git, &strings(&["remote", "add"])), "git remote add");
    assert_eq!(command_name(&git, &Vec::new()), "git");
    assert_eq!(
        help_attempts(&strings(&["remote"])),
        vec![
            strings(&["remote", "--help"]),
            strings(&["remote", "help"]),
            strings(&["remote", "-h"]),
        ]
    );
}

#[test]
fn help_detection_and_output_choice() {
    assert!(looks_like_help("USAGE: x [flags]"));
    assert!(looks_like_help("Available Commands\n  a"));
    assert!(!looks_like_help("hello world"));
    assert_eq!(help_output("", "  err text \n").as_deref(), Some("err text"));
    assert_eq!(help_output(" out ", "err").as_deref(), Some("out"));
    assert_eq!(help_output("  \n", ""), None);
    assert_eq!(example_title(0), "Example 1");
    assert_eq!(example_title(9), "Example 10");
}

#[test]
fn walk_visits_each_command_once_breadth_first() {
    let mut walk = CommandWalk::new();
    let root = walk.next_path().expect("root");
    assert!(root.is_empty());
    let parsed = ParsedCommandHelp {
        description: None,
        subcommands: vec![
            ParsedSubcommand { name: "build".to_string(), description: None },
            ParsedSubcommand { name: "run".to_string(), description: None },
        ],
        options: Vec::new(),
        examples: Vec::new(),
    };
    let queued = walk.push_children(&root, &parsed);
    assert_eq!(queued, vec![strings(&["build"]), strings(&["run"])]);
    walk.push_children(&root, &parsed);
    assert_eq!(walk.next_path(), Some(strings(&["build"])));
    assert_eq!(walk.next_path(), Some(strings(&["run"])));
    assert_eq!(walk.next_path(), None);
}

#[test]
fn walk_stops_at_the_depth_limit() {
    let mut walk = CommandWalk::new();
    let deep = strings(&["a", "b", "c", "d"]);
    let parsed = ParsedCommandHelp {
        description: None,
        subcommands: vec![ParsedSubcommand { name: "e".to_string(), description: None }],
        options: Vec::new(),
        examples: Vec::new(),
    };
    assert!(walk.push_children(&deep, &parsed).is_empty());
}

#[test]
fn tool_scores_follow_the_path_this_platform_reads() {
    assert_eq!(GenericParser::tool_score("x", Some("docker".to_string()), Some("docker.exe".to_string()), "docker"), 100);
    assert_eq!(GenericParser::tool_score("DOCKER", None, None, "docker"), 100);
    assert_eq!(GenericParser::tool_score("x", None, Some("Git".to_string()), "git"), 100);
    assert_eq!(GenericParser::tool_score("x", Some("cargo-watch".to_string()), None, "cargo"), 0);
}

#[test]
fn overview_counts_the_application_its_commands_and_examples() {
    let none = overview_counts(None);
    assert_eq!((none.applications, none.commands, none.examples), (1, 0, 0));
    let parsed = ParsedCommandHelp {
        description: None,
        subcommands: vec![
            ParsedSubcommand { name: "run".to_string(), description: None },
            ParsedSubcommand { name: "build".to_string(), description: None },
        ],
        options: Vec::new(),
        examples: vec!["tool run".to_string()],
    };
    let counts = overview_counts(Some(&parsed));
    assert_eq!((counts.applications, counts.commands, counts.examples), (1, 3, 1));
}
