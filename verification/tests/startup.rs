use prism::startup::{
    FileDetails, RegistryHive, StartupApp, StartupCommandUpdateRequest, StartupManager,
};
use prism::terminal::models::Platform;

fn vars() -> Vec<(String, String)> {
    vec![
        ("LOCALAPPDATA".to_string(), "C:\\Users\\u\\AppData\\Local".to_string()),
        ("windir".to_string(), "C:\\Windows".to_string()),
    ]
}

fn request(source: &str, command: &str) -> StartupCommandUpdateRequest {
    StartupCommandUpdateRequest {
        source: source.to_string(),
        value_name: "Tool".to_string(),
        command: command.to_string(),
    }
}

fn app(name: &str) -> StartupApp {
    StartupApp {
        name: name.to_string(),
        publisher: String::new(),
        icon_data_url: None,
        status: "Enabled".to_string(),
        impact: "Low".to_string(),
        startup_type: "Registry".to_string(),
        source: "HKCU Run".to_string(),
        command: String::new(),
        path: String::new(),
        value_name: None,
    }
}

#[test]
fn commands_of_registry_entries_can_be_updated_on_windows() {
    let manager = StartupManager::new();
    let write = manager
        .update_command(request("HKLM Run", "  \"C:\\a b\\t.exe\" -x  "), Platform::Windows)
        .unwrap();
    assert!(write.hive == RegistryHive::LocalMachine);
    assert_eq!(write.key_path, "Software\\Microsoft\\Windows\\CurrentVersion\\Run");
    assert_eq!(write.value_name, "Tool");
    assert_eq!(write.value, "\"C:\\a b\\t.exe\" -x");
    let write = manager.update_command(request("HKCU Run", "t.exe"), Platform::Windows).unwrap();
    assert!(write.hive == RegistryHive::CurrentUser);
}

#[test]
fn command_updates_are_refused_with_reasons() {
    let manager = StartupManager::new();
    let e = manager.update_command(request("HKCU Run", "t.exe"), Platform::MacOs).unwrap_err();
    assert_eq!(e.code, "settingsFailed");
    assert_eq!(e.message, "startup command editing is only available on Windows");
    let e = manager.update_command(request("HKCU Run", "   "), Platform::Windows).unwrap_err();
    assert_eq!(e.message, "startup command cannot be empty");
    let e = manager.update_command(request("Startup folder", "t.exe"), Platform::Windows).unwrap_err();
    assert_eq!(e.message, "only registry startup entries can be edited");
}

#[test]
fn executables_and_variables_of_commands() {
    assert_eq!(StartupManager::executable_path("\"C:\\a b\\t.exe\" -x"), "C:\\a b\\t.exe");
    assert_eq!(StartupManager::executable_path("  t.exe --min"), "t.exe");
    assert_eq!(StartupManager::executable_path("   "), "");
    assert_eq!(
        StartupManager::expand_environment_variables("%LocalAppData%\\x\\%NOPE%\\%%y", &vars()),
        "C:\\Users\\u\\AppData\\Local\\x\\%NOPE%\\%y"
    );
    assert_eq!(
        StartupManager::expand_environment_variables("%WINDIR", &vars()),
        "C:\\Windows"
    );
    assert_eq!(
        StartupManager::startup_path("\"%windir%\\app.exe\" /s", &vars()),
        "C:\\Windows\\app.exe"
    );
}

#[test]
fn names_impact_and_status() {
    assert_eq!(StartupManager::spaced_name("MicrosoftEdge_AutoLaunch"), "Microsoft Edge Auto Launch");
    assert_eq!(StartupManager::spaced_name("app2Go"), "app2 Go");
    assert_eq!(StartupManager::impact("C:\\Discord\\Update.exe"), "High");
    assert_eq!(StartupManager::impact("OneDrive.exe /background"), "Medium");
    assert_eq!(StartupManager::impact("notepad.exe"), "Low");
    assert_eq!(StartupManager::status_from_flag(Some(3)), "Disabled");
    assert_eq!(StartupManager::status_from_flag(Some(2)), "Enabled");
    assert_eq!(StartupManager::status_from_flag(None), "Enabled");
    assert!(StartupManager::is_desktop_ini("Desktop.INI"));
    assert!(!StartupManager::is_desktop_ini("tool.lnk"));
}

#[test]
fn publishers_skip_drives_and_program_files() {
    let components = vec![
        Some("C:".to_string()),
        Some("\\".to_string()),
        Some("Program Files".to_string()),
        None,
        Some("Vendor".to_string()),
        Some("app.exe".to_string()),
    ];
    assert_eq!(StartupManager::publisher_from_components(&components), "\\");
    let components = vec![
        Some("C:".to_string()),
        Some("PROGRAM FILES (X86)".to_string()),
        Some("Vendor".to_string()),
    ];
    assert_eq!(StartupManager::publisher_from_components(&components), "Vendor");
    assert_eq!(
        StartupManager::publisher_from_components(&vec![Some("D:".to_string())]),
        "Unknown publisher"
    );
}

#[test]
fn packaged_applications() {
    assert!(StartupManager::is_packaged_startup_task("AutoStartTask"));
    assert!(StartupManager::is_packaged_startup_task("MicrosoftDefender"));
    assert!(!StartupManager::is_packaged_startup_task("Background"));
    assert_eq!(StartupManager::packaged_status(1, None, None, None), "Disabled");
    assert_eq!(StartupManager::packaged_status(2, Some(5), Some(1), None), "Enabled");
    assert_eq!(StartupManager::packaged_status(0, Some(5), None, None), "Disabled");
    assert_eq!(StartupManager::packaged_status(2, None, None, Some(1)), "Disabled");
    assert_eq!(StartupManager::packaged_status(0, None, Some(0), Some(0)), "Enabled");
    let app = StartupManager::packaged_app("5319275A.WhatsAppDesktop_x", "WhatsAppStartup", "Enabled".to_string());
    assert_eq!(app.name, "WhatsApp");
    assert_eq!(app.publisher, "WhatsApp Inc.");
    assert_eq!(app.command, "5319275A.WhatsAppDesktop_x!WhatsAppStartup");
    assert_eq!(app.startup_type, "Startup Task");
    assert_eq!(StartupManager::packaged_name("Contoso.Tool", "ToolStartup"), "Tool Startup");
    assert_eq!(StartupManager::packaged_publisher("Microsoft.WindowsTerminal_8w"), "Microsoft Corporation");
    assert_eq!(StartupManager::packaged_publisher("Contoso.Tool"), "Unknown publisher");
}

#[test]
fn entries_from_commands_prefer_the_version_resource() {
    let details = FileDetails {
        file_description: Some("Tool Helper".to_string()),
        product_name: Some("Tool".to_string()),
        company_name: Some("Contoso".to_string()),
        icon_data_url: None,
    };
    let entry = StartupManager::app_from_command(
        "tool_helper",
        "\"%windir%\\helper.exe\" -q".to_string(),
        "Registry",
        "HKCU Run",
        "Enabled".to_string(),
        Some("ToolHelper".to_string()),
        &vars(),
        details,
    );
    assert_eq!(entry.name, "Tool Helper");
    assert_eq!(entry.publisher, "Contoso");
    assert_eq!(entry.impact, "Medium");
    assert_eq!(entry.path, "C:\\Windows\\helper.exe");
    assert_eq!(entry.value_name.as_deref(), Some("ToolHelper"));
    let bare = FileDetails { file_description: None, product_name: None, company_name: None, icon_data_url: None };
    let entry = StartupManager::app_from_command(
        "my_AppName", "x.exe".to_string(), "Registry", "HKCU Run", "Enabled".to_string(), None, &vars(), bare,
    );
    assert_eq!(entry.name, "my App Name");
}

#[test]
fn apps_are_listed_by_lower_case_name_keeping_ties() {
    let mut first = app("beta");
    first.command = "1".to_string();
    let mut second = app("Beta");
    second.command = "2".to_string();
    let listed = StartupManager::new()
        .apps(vec![app("zed"), first, app("Alpha"), second])
        .unwrap();
    let names: Vec<&str> = listed.iter().map(|a| a.name.as_str()).collect();
    assert_eq!(names, vec!["Alpha", "beta", "Beta", "zed"]);
    assert_eq!(listed[1].command, "1");
    assert_eq!(listed[2].command, "2");
}

#[test]
fn publisher_of_a_relative_path() {
    assert_eq!(StartupManager::path_publisher("Contoso/Tools/app.exe"), "Contoso");
    assert_eq!(StartupManager::path_publisher("Program Files/Contoso/app.exe"), "Contoso");
    assert_eq!(StartupManager::path_publisher("app.exe"), "app.exe");
}
