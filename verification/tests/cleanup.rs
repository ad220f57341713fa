use prism::disk_cleanup::{
    AppFolder, CleanedPath, CleanupEnvironment, CleanupTargetDefinition, DiskCleanupManager,
    MountedDisk, PathUsage, UsageInsightDefinition,
};
use prism::models::{DiskCleanupRequest, DiskUsageInsightCleanupRequest, DiskVolumeUsage};

fn windows_env() -> CleanupEnvironment {
    CleanupEnvironment {
        separator: '\\',
        temp_dir: "C:\\Users\\u\\AppData\\Local\\Temp".to_string(),
        system_root: Some("C:\\Windows".to_string()),
        program_data: None,
        local_app_data: Some("C:\\Users\\u\\AppData\\Local".to_string()),
        user_profile: None,
        app_data: None,
        program_files: Some("C:\\Program Files".to_string()),
        program_files_x86: None,
        home: None,
    }
}

fn volume(label: &str) -> DiskVolumeUsage {
    DiskVolumeUsage {
        label: label.to_string(),
        name: "Local Disk".to_string(),
        total_bytes: 100,
        free_bytes: 40,
        system_drive: true,
    }
}

fn target(id: &str, path: &str) -> CleanupTargetDefinition {
    CleanupTargetDefinition {
        id: id.to_string(),
        name: id.to_string(),
        path: path.to_string(),
        description: String::new(),
    }
}

#[test]
fn targets_list_volumes_then_the_environment() {
    let targets = DiskCleanupManager::targets(&vec![volume("C:")], &windows_env());
    let ids: Vec<&str> = targets.iter().map(|t| t.id.as_str()).collect();
    assert_eq!(
        ids,
        vec![
            "recycle_bin_c",
            "windows_old_c",
            "user_temp",
            "windows_temp",
            "windows_update_cache",
            "crash_dumps",
            "chrome_cache",
            "edge_cache",
        ]
    );
    assert_eq!(targets[0].path, "C:\\$Recycle.Bin");
    assert_eq!(targets[4].path, "C:\\Windows\\SoftwareDistribution\\Download");
    assert_eq!(
        targets[6].path,
        "C:\\Users\\u\\AppData\\Local\\Google\\Chrome\\User Data\\Default\\Cache\\Cache_Data"
    );
}

#[test]
fn ids_are_made_of_paths_and_labels() {
    assert_eq!(DiskCleanupManager::id_fragment("C:\\Program Files\\Big"), "c__program_files_big");
    assert_eq!(DiskCleanupManager::volume_id("D:"), "d");
    assert_eq!(DiskCleanupManager::volume_id(" Data-1::"), "data1");
    assert!(DiskCleanupManager::safe_to_clean("npm_cache"));
    assert!(!DiskCleanupManager::safe_to_clean("rustup_toolchains"));
    assert_eq!(
        DiskCleanupManager::safety_label(true),
        "Safe to clean; data can be redownloaded or rebuilt."
    );
}

#[test]
fn large_application_folders_start_at_one_gibibyte() {
    let folders = vec![
        AppFolder { path: "C:\\Program Files\\Big".to_string(), name: Some("Big".to_string()), bytes: 1 << 30 },
        AppFolder { path: "C:\\Program Files\\Small".to_string(), name: Some("Small".to_string()), bytes: (1 << 30) - 1 },
        AppFolder { path: "C:\\Program Files\\\u{fffd}".to_string(), name: None, bytes: 5 << 30 },
    ];
    let insights = DiskCleanupManager::usage_insights(&windows_env(), &folders);
    let large: Vec<&UsageInsightDefinition> =
        insights.iter().filter(|i| i.category == "Apps over 1 GB").collect();
    assert_eq!(large.len(), 2);
    assert_eq!(large[0].id, "large_app_c__program_files_big");
    assert_eq!(large[0].name, "Big");
    assert_eq!(large[1].name, "Application");
    assert_eq!(
        DiskCleanupManager::large_app_roots(&windows_env()),
        vec!["C:\\Program Files".to_string(), "C:\\Users\\u\\AppData\\Local\\Programs".to_string()]
    );
}

#[test]
fn scan_reports_every_target_and_the_insights_in_use() {
    let targets = vec![(target("a", "/a"), PathUsage { bytes: 0, exists: false })];
    let insight = |id: &str| UsageInsightDefinition {
        id: id.to_string(),
        name: id.to_string(),
        path: format!("/{}", id),
        category: "c".to_string(),
        description: "d".to_string(),
    };
    let insights = vec![
        (insight("npm_cache"), PathUsage { bytes: 10, exists: true }),
        (insight("empty"), PathUsage { bytes: 0, exists: true }),
        (insight("gone"), PathUsage { bytes: 5, exists: false }),
    ];
    let scan = DiskCleanupManager::scan_measured(vec![volume("C:")], &targets, &insights).unwrap();
    assert_eq!(scan.volumes.len(), 1);
    assert_eq!(scan.targets.len(), 1);
    assert!(!scan.targets[0].exists);
    assert_eq!(scan.usage_insights.len(), 1);
    assert_eq!(scan.usage_insights[0].id, "npm_cache");
    assert!(scan.usage_insights[0].safe_to_clean);
    assert_eq!(scan.usage_insights[0].bytes, 10);
}

#[test]
fn cleaning_sums_the_freed_bytes() {
    let definitions = vec![target("a", "/a"), target("b", "/b")];
    let request = DiskCleanupRequest { target_ids: vec!["a".to_string(), "b".to_string()] };
    let result = DiskCleanupManager::clean(request, &definitions, |path: &String| {
        if path == "/a" {
            CleanedPath { before: 100, after: 30, exists: true }
        } else {
            CleanedPath { before: 5, after: 9, exists: false }
        }
    })
    .unwrap();
    assert_eq!(result.released_bytes, 70);
    assert!(result.released_bytes <= 100 + 5);
    assert_eq!(result.cleaned_targets.len(), 2);
    assert_eq!(result.cleaned_targets[0].bytes, 30);
    assert!(!result.cleaned_targets[1].exists);
}

#[test]
fn cleaning_saturates_at_the_largest_size() {
    let definitions = vec![target("a", "/a")];
    let request = DiskCleanupRequest { target_ids: vec!["a".to_string(), "a".to_string()] };
    let result = DiskCleanupManager::clean(request, &definitions, |_: &String| CleanedPath {
        before: u64::MAX,
        after: 0,
        exists: false,
    })
    .unwrap();
    assert_eq!(result.released_bytes, u64::MAX);
}

#[test]
fn cleaning_an_unknown_target_fails() {
    let definitions = vec![target("a", "/a")];
    let request = DiskCleanupRequest { target_ids: vec!["a".to_string(), "zzz".to_string()] };
    let error = DiskCleanupManager::clean(request, &definitions, |_: &String| CleanedPath {
        before: 1,
        after: 0,
        exists: false,
    })
    .unwrap_err();
    assert_eq!(error.code, "diskCleanupFailed");
    assert_eq!(error.message, "unknown cleanup target");
}

#[test]
fn cleaning_a_usage_insight() {
    let insights = vec![UsageInsightDefinition {
        id: "pip_cache".to_string(),
        name: "pip".to_string(),
        path: "/pip".to_string(),
        category: "Developer cache".to_string(),
        description: "d".to_string(),
    }];
    let result = DiskCleanupManager::clean_usage_insight(
        DiskUsageInsightCleanupRequest { insight_id: "pip_cache".to_string() },
        &insights,
        |_: &String| CleanedPath { before: 50, after: 10, exists: true },
    )
    .unwrap();
    assert_eq!(result.released_bytes, 40);
    assert_eq!(result.cleaned_insight.bytes, 10);
    let error = DiskCleanupManager::clean_usage_insight(
        DiskUsageInsightCleanupRequest { insight_id: "nope".to_string() },
        &insights,
        |_: &String| CleanedPath { before: 0, after: 0, exists: false },
    )
    .unwrap_err();
    assert_eq!(error.message, "unknown usage insight");
}

#[test]
fn volume_lines_are_parsed() {
    let output = "noise\nVOL|C:| System |100|40|True\n\nVOL|D:|Data|x|1|false\nVOL|E:|Data|7|1|false\n";
    let volumes = DiskCleanupManager::parse_volumes(output);
    assert_eq!(volumes.len(), 2);
    assert_eq!(volumes[0].label, "C:");
    assert_eq!(volumes[0].name, "System");
    assert_eq!(volumes[0].total_bytes, 100);
    assert_eq!(volumes[0].free_bytes, 40);
    assert!(volumes[0].system_drive);
    assert_eq!(volumes[1].label, "E:");
    assert!(!volumes[1].system_drive);
}

#[test]
fn macos_volumes_put_the_root_first() {
    let disk = |mount: &str, name: &str, total: u64| MountedDisk {
        mount_point: mount.to_string(),
        name: name.to_string(),
        total_space: total,
        available_space: 1,
    };
    let disks = vec![
        disk("/Volumes/Zed", "Zed", 10),
        disk("/System/Volumes/Data", "Data", 10),
        disk("/Volumes/Backup", "", 10),
        disk("/", "Macintosh HD", 10),
        disk("/Volumes/Empty", "Empty", 0),
    ];
    let volumes = DiskCleanupManager::macos_volumes(&disks);
    let labels: Vec<&str> = volumes.iter().map(|v| v.label.as_str()).collect();
    assert_eq!(labels, vec!["/", "/Volumes/Backup", "/Volumes/Zed"]);
    assert!(volumes[0].system_drive);
    assert_eq!(volumes[1].name, "/Volumes/Backup");
}

#[test]
fn scan_measures_the_targets_and_insights_of_the_machine() {
    let env = windows_env();
    let measure = |path: &String| {
        if path.ends_with("Temp") {
            PathUsage { bytes: 40, exists: true }
        } else {
            PathUsage { bytes: 0, exists: false }
        }
    };
    let scan = DiskCleanupManager::scan(vec![volume("C:")], &env, &Vec::new(), measure).unwrap();
    assert_eq!(scan.volumes.len(), 1);
    let expected = DiskCleanupManager::targets(&vec![volume("C:")], &env);
    assert_eq!(scan.targets.len(), expected.len());
    assert!(scan.targets.len() >= 3);
    let temp = scan.targets.iter().find(|t| t.id == "user_temp").unwrap();
    assert_eq!(temp.bytes, 40);
    assert!(temp.exists);
    assert!(scan.usage_insights.iter().all(|i| i.exists && i.bytes > 0));
}

#[test]
fn cleaning_stops_at_an_unknown_target_after_cleaning_the_ones_before() {
    let definitions = vec![target("a", "/a"), target("b", "/b")];
    let request = DiskCleanupRequest { target_ids: vec!["a".to_string(), "zzz".to_string(), "b".to_string()] };
    let cleaned = std::cell::RefCell::new(Vec::new());
    let result = DiskCleanupManager::clean(request, &definitions, |path: &String| {
        cleaned.borrow_mut().push(path.clone());
        CleanedPath { before: 10, after: 0, exists: true }
    });
    let e = result.err().unwrap();
    assert_eq!(e.message, "unknown cleanup target");
    assert_eq!(cleaned.into_inner(), vec!["/a".to_string()]);
}
