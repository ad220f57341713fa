use prism::commands::docker::{
    container_action_args, containers_from_output, docker_availability, docker_dashboard,
    docker_label_value, docker_text, image_from_line, images_from_output, ProcessOutcome,
};
use prism::commands::ports::{lsof_ports, normalize_address, parse_lsof_port_line, port_from_row, PortRow};
use prism::commands::registry::{
    basic_auth_user, catalog_url, next_url, registry_base_url, registry_failure, sorted_tags,
    sorted_unique, tags_url,
};
use prism::commands::ssh::{
    check_new_key, plan_ssh_key, sanitize_ssh_key_file_name, sort_keys, ssh_key_info,
    ssh_key_type, ssh_keygen_args,
};
use prism::commands::system::{
    decimal_text, open_native_tool, start_with_windows, taskkill_failure,
    terminate_process_args, RunKeyChange,
};
use prism::models::{CommandError, DockerAvailability, SshKeyGenerationRequest};
use prism::terminal::models::Platform;

fn strings(items: &[&str]) -> Vec<String> {
    items.iter().map(|s| s.to_string()).collect()
}

#[test]
fn lsof_lines_become_ports() {
    let output = "COMMAND   PID USER   FD   TYPE DEVICE SIZE/OFF NODE NAME\n\
node    1234 me   21u  IPv4 0x1      0t0  TCP 127.0.0.1:3000 (LISTEN)\n\
mDNS     99 me    5u  IPv6 0x2      0t0  UDP *:5353\n\
short line\n\
ssh     777 me    3u  IPv4 0x3      0t0  TCP 10.0.0.2:50000->1.2.3.4:22 (ESTABLISHED)\n";
    let ports = lsof_ports(output);
    assert_eq!(ports.len(), 3);
    assert_eq!(ports[0].protocol, "TCP");
    assert_eq!(ports[0].local_address, "localhost");
    assert_eq!(ports[0].local_port, 3000);
    assert_eq!(ports[0].state, "LISTEN");
    assert_eq!(ports[0].pid, Some(1234));
    assert_eq!(ports[0].process_name, "node");
    assert_eq!(ports[1].protocol, "UDP");
    assert_eq!(ports[1].local_address, "All interfaces");
    assert_eq!(ports[1].state, "Open");
    assert_eq!(ports[2].local_address, "10.0.0.2");
    assert_eq!(ports[2].local_port, 50000);
    assert_eq!(ports[2].state, "ESTABLISHED");
    assert!(parse_lsof_port_line("a 1 b c d e f TCP host:99999").is_none());
    let tcp = parse_lsof_port_line("a x b c d e f TCP [::1]:80").unwrap();
    assert_eq!(tcp.state, "Unknown");
    assert_eq!(tcp.pid, None);
    assert_eq!(tcp.local_address, "[::1]");
}

#[test]
fn addresses_and_rows() {
    assert_eq!(normalize_address("::".to_string()), "All interfaces");
    assert_eq!(normalize_address("::1".to_string()), "localhost");
    assert_eq!(normalize_address("192.168.1.2".to_string()), "192.168.1.2");
    let port = port_from_row(PortRow {
        protocol: "TCP".to_string(),
        local_address: "0.0.0.0".to_string(),
        local_port: 80,
        remote_address: Some("127.0.0.1".to_string()),
        remote_port: Some(5000),
        state: "Listen".to_string(),
        pid: Some(4),
        process_name: None,
        process_path: None,
    });
    assert_eq!(port.local_address, "All interfaces");
    assert_eq!(port.remote_address.as_deref(), Some("localhost"));
    assert_eq!(port.process_name, "Unknown");
}

#[test]
fn ssh_key_file_names_are_checked() {
    assert_eq!(sanitize_ssh_key_file_name("  id_work-1.key ").unwrap(), "id_work-1.key");
    for bad in ["", "  ", ".", "..", "a/b", "a\\b", "key name", "ключ"] {
        let e = sanitize_ssh_key_file_name(bad).unwrap_err();
        assert_eq!(e.code, "sshKeyFailed");
        assert_eq!(e.message, "invalid SSH key file name");
    }
    assert_eq!(ssh_key_type("rsa").unwrap(), "rsa");
    assert_eq!(ssh_key_type("dsa").unwrap_err().message, "unsupported SSH key type");
}

#[test]
fn ssh_keygen_is_planned() {
    assert_eq!(
        ssh_keygen_args("rsa", "/h/.ssh/id", " me@host "),
        strings(&["-t", "rsa", "-f", "/h/.ssh/id", "-C", "me@host", "-N", "", "-b", "4096"])
    );
    let request = SshKeyGenerationRequest {
        file_name: " id_work ".to_string(),
        key_type: "ed25519".to_string(),
        comment: "c".to_string(),
    };
    let plan = plan_ssh_key(&request, "/h/.ssh", '/').ok().unwrap();
    assert_eq!(plan.private_path, "/h/.ssh/id_work");
    assert_eq!(plan.public_path, "/h/.ssh/id_work.pub");
    assert_eq!(plan.args, strings(&["-t", "ed25519", "-f", "/h/.ssh/id_work", "-C", "c", "-N", ""]));
    let dotted = SshKeyGenerationRequest { file_name: "deploy.key".to_string(), ..request.clone() };
    assert_eq!(plan_ssh_key(&dotted, "/h/.ssh/", '/').ok().unwrap().public_path, "/h/.ssh/deploy.pub");
    let bad_type = SshKeyGenerationRequest { key_type: "dsa".to_string(), ..request.clone() };
    let e = plan_ssh_key(&bad_type, "/h/.ssh", '/').err().unwrap();
    assert_eq!(e.message, "unsupported SSH key type");
    let bad_name = SshKeyGenerationRequest { file_name: "../x".to_string(), ..request };
    let e = plan_ssh_key(&bad_name, "/h/.ssh", '/').err().unwrap();
    assert_eq!(e.message, "invalid SSH key file name");
    assert!(check_new_key(false, false).is_ok());
    assert_eq!(check_new_key(true, false).unwrap_err().message, "SSH key already exists");
    assert!(check_new_key(false, true).is_err());
}

#[test]
fn ssh_keys_are_described_and_sorted() {
    let info = ssh_key_info(
        " ssh-ed25519 AAAAC3 work laptop \n",
        "/h/.ssh/b.pub".to_string(),
        "/h/.ssh/b".to_string(),
        Some("b".to_string()),
        true,
        Some("256 SHA256:abc work (ED25519)\n".to_string()),
        None,
    );
    assert_eq!(info.key_type, "ssh-ed25519");
    assert_eq!(info.comment.as_deref(), Some("work laptop"));
    assert_eq!(info.public_key, "ssh-ed25519 AAAAC3 work laptop");
    assert_eq!(info.private_key_path.as_deref(), Some("/h/.ssh/b"));
    assert_eq!(info.fingerprint.as_deref(), Some("256 SHA256:abc work (ED25519)"));
    let bare = ssh_key_info("", "/h/.ssh/a.pub".to_string(), "/h/.ssh/a".to_string(), None, false, Some("  ".to_string()), None);
    assert_eq!(bare.key_type, "unknown");
    assert_eq!(bare.name, "unknown");
    assert_eq!(bare.comment, None);
    assert_eq!(bare.private_key_path, None);
    assert_eq!(bare.fingerprint, None);
    let mut upper = bare.clone();
    upper.name = "Alpha".to_string();
    let sorted = sort_keys(vec![info, upper]);
    assert_eq!(sorted[0].name, "Alpha");
    assert_eq!(sorted[1].name, "b");
}

#[test]
fn docker_lines_are_read() {
    let line = r#"{"ID":"abc","Names":"web","Image":"nginx","State":"Running","Status":"Up 2 hours","Ports":"80/tcp","CreatedAt":"2024","Labels":"com.docker.compose.project=shop,com.docker.compose.service=web"}"#;
    let output = format!("{}\nnot json\n\n", line);
    let containers = containers_from_output(&output);
    assert_eq!(containers.len(), 1);
    let c = &containers[0];
    assert_eq!(c.id, "abc");
    assert_eq!(c.name, "web");
    assert!(c.running);
    assert_eq!(c.parent_name.as_deref(), Some("shop"));
    assert_eq!(c.service_name.as_deref(), Some("web"));
    let image = image_from_line(r#"{"ID":"i1","Repository":"nginx","Tag":"latest","Size":"10MB","CreatedSince":"2 days ago"}"#).unwrap();
    assert_eq!(image.repository, "nginx");
    assert_eq!(image.created, "2 days ago");
    assert!(image_from_line("nope").is_none());
    assert_eq!(images_from_output("x\n{\"ID\":\"1\"}\n").len(), 1);
    assert_eq!(docker_label_value("a=,b=2,a=1", "a").as_deref(), Some("1"));
    assert_eq!(docker_label_value("a", "a"), None);
}

#[test]
fn docker_actions_and_outcomes() {
    assert_eq!(container_action_args("c1", "forceRemove").unwrap(), strings(&["rm", "-f", "c1"]));
    assert_eq!(container_action_args("c1", "remove").unwrap(), strings(&["rm", "c1"]));
    assert_eq!(container_action_args("c1", "start").unwrap(), strings(&["start", "c1"]));
    let e = container_action_args("c1", "pause").unwrap_err();
    assert_eq!(e.code, "dockerFailed");
    assert_eq!(e.message, "unsupported Docker container action");
    let ok = ProcessOutcome::Exited { success: true, stdout: " 27.0 \n".to_string(), stderr: String::new() };
    assert_eq!(docker_text(ok).unwrap(), "27.0");
    let failed = ProcessOutcome::Exited { success: false, stdout: String::new(), stderr: " daemon down ".to_string() };
    assert_eq!(docker_text(failed).unwrap_err().message, "daemon down");
    let missing = ProcessOutcome::SpawnFailed { not_found: true, message: "not found".to_string() };
    let availability = docker_availability(missing).unwrap();
    assert!(!availability.installed);
    let broken = ProcessOutcome::SpawnFailed { not_found: false, message: "denied".to_string() };
    assert_eq!(docker_availability(broken).unwrap_err().message, "denied");
}

#[test]
fn docker_dashboard_states() {
    let none = docker_dashboard(DockerAvailability { installed: false, version: None }, Ok("1".to_string()), Vec::new(), Vec::new());
    assert!(!none.installed);
    assert_eq!(none.error.as_deref(), Some("Docker CLI is not installed."));
    let installed = DockerAvailability { installed: true, version: Some("27".to_string()) };
    let down = docker_dashboard(installed.clone(), Err(CommandError::docker_failed("no daemon")), Vec::new(), Vec::new());
    assert!(down.installed && !down.running);
    assert_eq!(down.error.as_deref(), Some("no daemon"));
    let up = docker_dashboard(installed, Ok("27.1".to_string()), Vec::new(), Vec::new());
    assert!(up.running);
    assert_eq!(up.server_version.as_deref(), Some("27.1"));
    assert_eq!(up.error, None);
}

#[test]
fn registry_addresses_and_pages() {
    assert_eq!(registry_base_url(" registry.local:5000/ ").unwrap(), "https://registry.local:5000");
    assert_eq!(registry_base_url("http://r").unwrap(), "http://r");
    assert_eq!(registry_base_url("  / ").unwrap_err().message, "registry URL is required");
    assert_eq!(catalog_url("https://r"), "https://r/v2/_catalog?n=100");
    assert_eq!(tags_url("https://r", "lib/app"), "https://r/v2/lib/app/tags/list");
    assert_eq!(basic_auth_user(" me ", ""), Some("me".to_string()));
    assert_eq!(basic_auth_user("", "secret"), Some(String::new()));
    assert_eq!(basic_auth_user(" ", ""), None);
    assert_eq!(registry_failure("401", "Unauthorized").message, "registry request failed: 401 Unauthorized");
    assert_eq!(
        next_url("https://r", "</v2/_catalog?last=b&n=100>; rel=\"next\"").as_deref(),
        Some("https://r/v2/_catalog?last=b&n=100")
    );
    assert_eq!(
        next_url("https://r", "<https://other/x>; rel=\"prev\", <page2>; rel=\"next\"").as_deref(),
        Some("https://r/page2")
    );
    assert_eq!(next_url("https://r", "<x>; rel=\"prev\""), None);
}

#[test]
fn repositories_and_tags_are_ordered() {
    assert_eq!(sorted_unique(strings(&["b", "a", "b", "c"])), strings(&["a", "b", "c"]));
    assert_eq!(sorted_tags(strings(&["v2", "latest", "v1", "v2"])), strings(&["latest", "v1", "v2", "v2"]));
}

#[test]
fn windows_tools_and_settings() {
    let launch = open_native_tool("diskManager", Platform::Windows).ok().unwrap();
    assert_eq!(launch.program, "cmd.exe");
    assert_eq!(launch.args, strings(&["/C", "start", "", "diskmgmt.msc"]));
    let launch = open_native_tool("taskManager", Platform::Windows).ok().unwrap();
    assert_eq!(launch.program, "taskmgr.exe");
    assert!(launch.args.is_empty());
    let e = open_native_tool("paint", Platform::Windows).err().unwrap();
    assert_eq!(e.message, "unknown native tool");
    let launch = open_native_tool("taskManager", Platform::MacOs).ok().unwrap();
    assert_eq!(launch.program, "/usr/bin/open");
    assert_eq!(launch.args, strings(&["-a", "Activity Monitor"]));
    let launch = open_native_tool("diskManager", Platform::MacOs).ok().unwrap();
    assert_eq!(launch.args, strings(&["-a", "Disk Utility"]));
    let launch = open_native_tool("snippingTool", Platform::MacOs).ok().unwrap();
    assert_eq!(launch.args, strings(&["-a", "Screenshot"]));
    let e = open_native_tool("paint", Platform::MacOs).err().unwrap();
    assert_eq!(e.message, "unknown native tool");
    let e = open_native_tool("terminal", Platform::Other).err().unwrap();
    assert_eq!(e.code, "nativeToolFailed");
    assert_eq!(e.message, "native tools are only available on Windows");
    assert_eq!(terminate_process_args(4120, Platform::Windows).unwrap(), strings(&["/PID", "4120", "/F"]));
    assert_eq!(
        terminate_process_args(1, Platform::Other).unwrap_err().message,
        "process termination is only available on Windows"
    );
    assert_eq!(taskkill_failure("exit code: 128").message, "taskkill exited with exit code: 128");
    assert_eq!(decimal_text(0), "0");
    assert_eq!(decimal_text(u64::MAX), "18446744073709551615");
    match start_with_windows(true, Platform::Windows, "C:\\app.exe").ok().unwrap() {
        RunKeyChange::SetValue { name, value } => {
            assert_eq!(name, "Workstation Console");
            assert_eq!(value, "\"C:\\app.exe\"");
        }
        RunKeyChange::RemoveValues { .. } => panic!("expected a value to set"),
    }
    match start_with_windows(false, Platform::Windows, "x").ok().unwrap() {
        RunKeyChange::RemoveValues { legacy_name, name } => {
            assert_eq!(legacy_name, "Matrix Process Manager");
            assert_eq!(name, "Workstation Console");
        }
        RunKeyChange::SetValue { .. } => panic!("expected values to remove"),
    }
    let e = start_with_windows(true, Platform::MacOs, "x").err().unwrap();
    assert_eq!(e.message, "start with Windows is only available on Windows");
}
