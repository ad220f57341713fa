use prism::providers::{macos_capacity_bytes, macos_cpu_cache_info_from_sysctl};
use prism::providers::macos::macos_info_from_outputs;

#[test]
fn aggregates_heterogeneous_mac_cpu_caches() {
    let output = r#"
hw.perflevel0.physicalcpu: 4
hw.perflevel0.l1dcachesize: 131072
hw.perflevel0.l1icachesize: 196608
hw.perflevel0.l2cachesize: 16777216
hw.perflevel1.physicalcpu: 6
hw.perflevel1.l1dcachesize: 65536
hw.perflevel1.l1icachesize: 131072
hw.perflevel1.l2cachesize: 6291456
"#;

    let info = macos_cpu_cache_info_from_sysctl(output);

    assert_eq!(info.l1_bytes, Some(2_490_368));
    assert_eq!(info.l2_bytes, Some(23_068_672));
    assert_eq!(info.l3_bytes, None);
}

#[test]
fn parses_mac_memory_capacity() {
    assert_eq!(macos_capacity_bytes("16 GB"), Some(16 * 1024_u64.pow(3)));
    assert_eq!(
        macos_capacity_bytes("1.5 TB"),
        Some((1.5 * 1024_u64.pow(4) as f64) as u64)
    );
    assert_eq!(macos_capacity_bytes("unknown"), None);
}

#[test]
fn parses_hardware_and_os_information() {
    let hardware = r#"{
        "SPHardwareDataType": [{
            "boot_rom_version": "18000.121.3",
            "chip_type": "Apple M5",
            "machine_model": "Mac17,3",
            "machine_name": "MacBook Air",
            "model_number": "MDHE4LL/A"
        }]
    }"#;
    let version = "ProductName: macOS\nProductVersion: 26.5.2\nBuildVersion: 25F84\n";

    let info = macos_info_from_outputs(
        Some(hardware),
        Some(version),
        Some("Andys-MacBook-Air".to_string()),
        "aarch64",
    )
    .expect("valid macOS information");

    assert_eq!(info.device_name.as_deref(), Some("Andys-MacBook-Air"));
    assert_eq!(info.manufacturer.as_deref(), Some("Apple Inc."));
    assert_eq!(info.model.as_deref(), Some("MacBook Air (Mac17,3)"));
    assert_eq!(info.system_type.as_deref(), Some("Apple M5"));
    assert_eq!(info.product_id.as_deref(), Some("MDHE4LL/A"));
    assert_eq!(info.os_edition.as_deref(), Some("macOS"));
    assert_eq!(info.os_version.as_deref(), Some("26.5.2"));
    assert_eq!(info.os_build.as_deref(), Some("25F84"));
    assert_eq!(info.experience.as_deref(), Some("18000.121.3"));
}
