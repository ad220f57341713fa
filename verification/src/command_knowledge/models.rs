//! Records of the command knowledge base and the requests that use them.
use vstd::prelude::*;

verus! {

/// An installed application stored in the command knowledge base.
#[derive(Clone, Debug)]
pub struct ApplicationRecord {
    pub id: i64,
    pub name: String,
    pub path: String,
    pub version: Option<String>,
    pub last_scanned_at: String,
}

/// An application found by a scan, before it is stored.
#[derive(Clone, Debug)]
pub struct NewApplicationRecord {
    pub name: String,
    pub path: String,
    pub version: Option<String>,
}

/// A command (an application with a path of subcommands) stored in the knowledge base.
#[derive(Clone, Debug)]
pub struct CommandRecord {
    pub id: i64,
    pub application_id: i64,
    pub name: String,
    pub description: Option<String>,
}

/// A command to store.
#[derive(Clone, Debug)]
pub struct NewCommandRecord {
    pub application_id: i64,
    pub name: String,
    pub description: Option<String>,
}

/// A stored option of a command.
#[derive(Clone, Debug)]
pub struct CommandOptionRecord {
    pub id: i64,
    pub command_id: i64,
    pub name: String,
    pub short_name: Option<String>,
    pub description: Option<String>,
    pub takes_value: bool,
}

/// An option of a command to store.
#[derive(Clone, Debug)]
pub struct NewCommandOptionRecord {
    pub command_id: i64,
    pub name: String,
    pub short_name: Option<String>,
    pub description: Option<String>,
    pub takes_value: bool,
}

/// A stored positional argument of a command.
#[derive(Clone, Debug)]
pub struct CommandArgumentRecord {
    pub id: i64,
    pub command_id: i64,
    pub name: String,
    pub description: Option<String>,
    pub required: bool,
    pub position: i64,
}

/// A positional argument of a command to store.
#[derive(Clone, Debug)]
pub struct NewCommandArgumentRecord {
    pub command_id: i64,
    pub name: String,
    pub description: Option<String>,
    pub required: bool,
    pub position: i64,
}

/// A stored usage example of a command.
#[derive(Clone, Debug)]
pub struct ExampleRecord {
    pub id: i64,
    pub command_id: i64,
    pub title: String,
    pub command_line: String,
    pub description: Option<String>,
}

/// A usage example of a command to store.
#[derive(Clone, Debug)]
pub struct NewExampleRecord {
    pub command_id: i64,
    pub title: String,
    pub command_line: String,
    pub description: Option<String>,
}

/// A command line that was run in a terminal.
#[derive(Clone, Debug)]
pub struct HistoryRecord {
    pub id: i64,
    pub command_id: Option<i64>,
    pub command_line: String,
    pub working_directory: Option<String>,
    pub shell: Option<String>,
    pub exit_code: Option<i64>,
    pub duration_ms: Option<i64>,
    pub executed_at: String,
}

/// A command line run to record.
#[derive(Clone, Debug)]
pub struct NewHistoryRecord {
    pub command_id: Option<i64>,
    pub command_line: String,
    pub working_directory: Option<String>,
    pub shell: Option<String>,
    pub exit_code: Option<i64>,
    pub duration_ms: Option<i64>,
}

/// How often and how recently a command was run.
#[derive(Clone, Debug)]
pub struct UsageStatisticRecord {
    pub id: i64,
    pub command_id: i64,
    pub run_count: i64,
    pub last_used_at: Option<String>,
}

/// Usage counts of a command to store.
#[derive(Clone, Debug)]
pub struct NewUsageStatisticRecord {
    pub command_id: i64,
    pub run_count: i64,
    pub last_used_at: Option<String>,
}

/// Counts reported by a scan of the installed applications.
#[derive(Clone, Debug)]
pub struct InstalledApplicationScanResult {
    pub scanned: usize,
    pub inserted: usize,
    pub updated: usize,
}

/// Counts reported by indexing the help texts of applications.
#[derive(Clone, Debug)]
pub struct CommandIndexResult {
    pub applications: usize,
    pub commands: usize,
    pub examples: usize,
}

/// A query typed at the prompt.
#[derive(Clone, Debug)]
pub struct CommandAutocompleteRequest {
    pub query: String,
    pub limit: Option<usize>,
}

/// A ranked completion for a query.
#[derive(Clone, Debug)]
pub struct CommandAutocompleteSuggestion {
    pub command_id: i64,
    pub command_line: String,
    pub label: String,
    pub icon: String,
    pub description: Option<String>,
    pub examples: Vec<CommandAutocompleteExample>,
    pub arguments: Vec<CommandAutocompleteArgument>,
    pub options: Vec<CommandAutocompleteOption>,
    pub usage_count: i64,
    pub score: i64,
    pub last_used_at: Option<String>,
    pub frequently_used: bool,
    pub recently_used: bool,
}

/// An example shown with a completion.
#[derive(Clone, Debug)]
pub struct CommandAutocompleteExample {
    pub title: String,
    pub command_line: String,
    pub description: Option<String>,
}

/// An argument shown with a completion.
#[derive(Clone, Debug)]
pub struct CommandAutocompleteArgument {
    pub name: String,
    pub description: Option<String>,
    pub required: bool,
}

/// An option shown with a completion.
#[derive(Clone, Debug)]
pub struct CommandAutocompleteOption {
    pub name: String,
    pub short_name: Option<String>,
    pub description: Option<String>,
    pub takes_value: bool,
}

/// A command line that is about to run.
#[derive(Clone, Debug)]
pub struct StartCommandExecutionRequest {
    pub command_line: String,
    pub working_directory: Option<String>,
    pub shell: Option<String>,
}

/// The history entry created for a started command.
#[derive(Clone, Debug)]
pub struct StartCommandExecutionResponse {
    pub history_id: i64,
}

/// The outcome of a finished command.
#[derive(Clone, Debug)]
pub struct FinishCommandExecutionRequest {
    pub history_id: i64,
    pub exit_code: Option<i64>,
    pub duration_ms: Option<i64>,
}

} // verus!
