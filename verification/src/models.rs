//! Values exchanged with the user interface.
use vstd::prelude::*;
use crate::text::owned;

verus! {

/// What identifies a running process.
#[derive(Clone, Debug)]
pub struct ProcessInfo {
    pub pid: u32,
    pub name: String,
    pub publisher: String,
    pub status: String,
    pub user: String,
    pub path: String,
    pub has_visible_window: bool,
    pub icon_data_url: Option<String>,
}

/// The processor and its load.
#[derive(Clone, Debug)]
pub struct CpuInfo {
    pub model: String,
    pub current_speed_mhz: u64,
    pub base_speed_mhz: u64,
    pub sockets: usize,
    pub cores: usize,
    pub logical_processors: usize,
    pub uptime_seconds: u64,
    pub total_threads: usize,
    pub total_handles: Option<usize>,
    pub virtualization: Option<String>,
    pub l1_cache_bytes: Option<u64>,
    pub l2_cache_bytes: Option<u64>,
    pub l3_cache_bytes: Option<u64>,
}

/// Physical memory and its use.
#[derive(Clone, Debug)]
pub struct MemoryInfo {
    pub installed_bytes: Option<u64>,
    pub in_use_bytes: u64,
    pub compressed_bytes: Option<u64>,
    pub available_bytes: u64,
    pub committed_bytes: u64,
    pub commit_limit_bytes: u64,
    pub cached_bytes: u64,
    pub paged_pool_bytes: u64,
    pub non_paged_pool_bytes: u64,
    pub speed_mhz: Option<u64>,
    pub slots_used: Option<usize>,
    pub slots_total: Option<usize>,
    pub form_factor: Option<String>,
    pub hardware_reserved_bytes: Option<u64>,
}

/// The device and operating system.
#[derive(Clone, Debug)]
pub struct WindowsInfo {
    pub device_name: Option<String>,
    pub manufacturer: Option<String>,
    pub model: Option<String>,
    pub system_type: Option<String>,
    pub device_id: Option<String>,
    pub product_id: Option<String>,
    pub os_edition: Option<String>,
    pub os_version: Option<String>,
    pub installed_on: Option<String>,
    pub os_build: Option<String>,
    pub experience: Option<String>,
}

/// A mounted volume and how full it is.
#[derive(Clone, Debug)]
pub struct DiskVolumeUsage {
    pub label: String,
    pub name: String,
    pub total_bytes: u64,
    pub free_bytes: u64,
    pub system_drive: bool,
}

/// A folder whose contents can be deleted to free space.
#[derive(Clone, Debug)]
pub struct DiskCleanupTarget {
    pub id: String,
    pub name: String,
    pub path: String,
    pub description: String,
    pub bytes: u64,
    pub exists: bool,
}

/// A folder that uses much space, with advice on whether it is safe to clean.
#[derive(Clone, Debug)]
pub struct DiskUsageInsight {
    pub id: String,
    pub name: String,
    pub path: String,
    pub category: String,
    pub description: String,
    pub bytes: u64,
    pub exists: bool,
    pub safe_to_clean: bool,
    pub safety: String,
}

/// What a scan of the disks found.
#[derive(Clone, Debug)]
pub struct DiskCleanupScan {
    pub targets: Vec<DiskCleanupTarget>,
    pub usage_insights: Vec<DiskUsageInsight>,
    pub volumes: Vec<DiskVolumeUsage>,
}

/// The cleanup targets the user chose.
#[derive(Clone, Debug)]
pub struct DiskCleanupRequest {
    pub target_ids: Vec<String>,
}

/// What a cleanup freed.
#[derive(Clone, Debug)]
pub struct DiskCleanupResult {
    pub released_bytes: u64,
    pub cleaned_targets: Vec<DiskCleanupTarget>,
}

/// The usage insight the user chose to clean.
#[derive(Clone, Debug)]
pub struct DiskUsageInsightCleanupRequest {
    pub insight_id: String,
}

/// What cleaning a usage insight freed.
#[derive(Clone, Debug)]
pub struct DiskUsageInsightCleanupResult {
    pub released_bytes: u64,
    pub cleaned_insight: DiskUsageInsight,
}

/// A port in use and the process that holds it.
#[derive(Clone, Debug)]
pub struct PortUsage {
    pub protocol: String,
    pub local_address: String,
    pub local_port: u16,
    pub remote_address: Option<String>,
    pub remote_port: Option<u16>,
    pub state: String,
    pub pid: Option<u32>,
    pub process_name: String,
    pub process_path: Option<String>,
}

/// The ports in use at a moment (seconds since the Unix epoch, as text).
#[derive(Clone, Debug)]
pub struct PortScan {
    pub scanned_at: String,
    pub ports: Vec<PortUsage>,
}

/// An SSH key pair found in the user's `.ssh` folder.
#[derive(Clone, Debug)]
pub struct SshKeyInfo {
    pub name: String,
    pub key_type: String,
    pub public_key_path: String,
    pub private_key_path: Option<String>,
    pub public_key: String,
    pub fingerprint: Option<String>,
    pub comment: Option<String>,
    pub modified_at: Option<String>,
    pub has_private_key: bool,
}

/// A request to create an SSH key pair.
#[derive(Clone, Debug)]
pub struct SshKeyGenerationRequest {
    pub file_name: String,
    pub key_type: String,
    pub comment: String,
}

/// Whether the Docker command line is installed, and its version text.
#[derive(Clone, Debug)]
pub struct DockerAvailability {
    pub installed: bool,
    pub version: Option<String>,
}

/// A Docker container.
#[derive(Clone, Debug)]
pub struct DockerContainer {
    pub id: String,
    pub name: String,
    pub image: String,
    pub parent_name: Option<String>,
    pub service_name: Option<String>,
    pub state: String,
    pub status: String,
    pub ports: String,
    pub created: String,
    pub running: bool,
}

/// A Docker image.
#[derive(Clone, Debug)]
pub struct DockerImage {
    pub id: String,
    pub repository: String,
    pub tag: String,
    pub size: String,
    pub created: String,
}

/// The state of Docker on this machine, with its containers and images.
#[derive(Clone, Debug)]
pub struct DockerDashboard {
    pub installed: bool,
    pub running: bool,
    pub version: Option<String>,
    pub server_version: Option<String>,
    pub error: Option<String>,
    pub containers: Vec<DockerContainer>,
    pub images: Vec<DockerImage>,
}

/// A Docker registry to list, with its credentials.
#[derive(Clone, Debug)]
pub struct DockerRegistryRequest {
    pub registry: String,
    pub username: String,
    pub password: String,
}

/// A repository of a Docker registry and its tags.
#[derive(Clone, Debug)]
pub struct DockerRegistryImage {
    pub repository: String,
    pub tags: Vec<String>,
}

/// An error reported to the user interface: a machine-readable code and a message.
#[derive(Clone, Debug)]
pub struct CommandError {
    pub code: String,
    pub message: String,
}

/// An error with the given code and message.
pub open spec fn is_error(e: CommandError, code: Seq<char>, message: Seq<char>) -> bool {
    e.code@ == code && e.message@ == message
}

impl CommandError {
    fn with_code(code: &str, message: &str) -> (r: Self)
        ensures
            is_error(r, code@, message@),
    {
        CommandError { code: owned(code), message: owned(message) }
    }

    pub fn process_snapshot_failed(message: &str) -> (r: Self)
        ensures
            is_error(r, "processSnapshotFailed"@, message@),
    {
        Self::with_code("processSnapshotFailed", message)
    }

    pub fn native_tool_failed(message: &str) -> (r: Self)
        ensures
            is_error(r, "nativeToolFailed"@, message@),
    {
        Self::with_code("nativeToolFailed", message)
    }

    pub fn settings_failed(message: &str) -> (r: Self)
        ensures
            is_error(r, "settingsFailed"@, message@),
    {
        Self::with_code("settingsFailed", message)
    }

    pub fn process_action_failed(message: &str) -> (r: Self)
        ensures
            is_error(r, "processActionFailed"@, message@),
    {
        Self::with_code("processActionFailed", message)
    }

    pub fn terminal_failed(message: &str) -> (r: Self)
        ensures
            is_error(r, "terminalFailed"@, message@),
    {
        Self::with_code("terminalFailed", message)
    }

    pub fn disk_cleanup_failed(message: &str) -> (r: Self)
        ensures
            is_error(r, "diskCleanupFailed"@, message@),
    {
        Self::with_code("diskCleanupFailed", message)
    }

    pub fn port_scan_failed(message: &str) -> (r: Self)
        ensures
            is_error(r, "portScanFailed"@, message@),
    {
        Self::with_code("portScanFailed", message)
    }

    pub fn ssh_key_failed(message: &str) -> (r: Self)
        ensures
            is_error(r, "sshKeyFailed"@, message@),
    {
        Self::with_code("sshKeyFailed", message)
    }

    pub fn docker_failed(message: &str) -> (r: Self)
        ensures
            is_error(r, "dockerFailed"@, message@),
    {
        Self::with_code("dockerFailed", message)
    }
}

} // verus!
