use prism::providers::icon::{icon_data_url, rgba_from_bgra};
use prism::providers::macos::{
    macos_disk_is_visible, macos_memory_hardware, macos_network_is_visible, macos_network_type,
    shown_mac_address, virtualization_status,
};
use prism::providers::windows::{
    adapter_key_from_instance, comma_items, disk_index, disk_type, engine_from_instance,
    matches_adapter, normalized, parse_adapter_details, parse_disk_details, parse_windows_info,
    pid_from_instance,
};
use prism::providers::{
    average_cpu_frequency, form_factor, macos_capacity_bytes, macos_cpu_cache_info_from_sysctl,
    macos_memory_info, memory_fallback, parse_memory_hardware, saturating_mul,
};

fn chars(s: &str) -> Vec<char> {
    s.chars().collect()
}

#[test]
fn windows_system_lines_are_read() {
    let info = parse_windows_info(
        "deviceName|DESK-1\nmanufacturer| Contoso \nmodel|\nnoise\nosVersion|10.0\nosVersion|11.0\nosBuild|22631\n",
    );
    assert_eq!(info.device_name.as_deref(), Some("DESK-1"));
    assert_eq!(info.manufacturer.as_deref(), Some("Contoso"));
    assert_eq!(info.model, None);
    assert_eq!(info.os_version.as_deref(), Some("11.0"));
    assert_eq!(info.os_build.as_deref(), Some("22631"));
    assert_eq!(info.product_id, None);
}

#[test]
fn windows_disks_are_read() {
    let output = "DISK|0|Samsung SSD|512110190592|SSD|NVMe|0|True|true|C:, D:\n\
                  DISK|1||0||SCSI|100|false|False|\n\
                  DISK|x|bad|1|2|3|4|5|6|7\n\
                  other\n";
    let disks = parse_disk_details(output);
    assert_eq!(disks.len(), 2);
    assert_eq!(disks[0].disk_index, 0);
    assert_eq!(disks[0].name, "Samsung SSD");
    assert_eq!(disks[0].labels, vec!["C:".to_string(), "D:".to_string()]);
    assert_eq!(disks[0].capacity_bytes, Some(512110190592));
    assert_eq!(disks[0].formatted_bytes, None);
    assert!(disks[0].system_disk && disks[0].page_file);
    assert_eq!(disks[0].disk_type.as_deref(), Some("SSD (NVMe)"));
    assert_eq!(disks[1].name, "Disk 1");
    assert_eq!(disks[1].capacity_bytes, None);
    assert_eq!(disks[1].formatted_bytes, Some(100));
    assert!(disks[1].labels.is_empty());
    assert_eq!(disks[1].disk_type.as_deref(), Some("Disk (SCSI)"));
    assert_eq!(disk_type(&chars("Fixed hard disk media"), &chars("")), "HDD");
    assert_eq!(disk_type(&chars("Removable"), &chars("USB")), "Removable (USB)");
}

#[test]
fn windows_adapters_are_read_and_matched() {
    let output = "NIC|3|Intel(R) Ethernet I219-V|Ethernet|00-11-22-33-44-55|Ethernet 802.3|1000000000|10.0.0.5|fe80::1, fe80::2\nNIC||Loopback|||||| \n";
    let adapters = parse_adapter_details(output);
    assert_eq!(adapters.len(), 2);
    assert_eq!(adapters[0].adapter_index, Some(3));
    assert_eq!(adapters[0].connection_name.as_deref(), Some("Ethernet"));
    assert_eq!(adapters[0].link_speed_bits_per_sec, Some(1_000_000_000));
    assert_eq!(adapters[0].ipv4_addresses, vec!["10.0.0.5".to_string()]);
    assert_eq!(adapters[0].ipv6_addresses.len(), 2);
    assert_eq!(adapters[1].adapter_index, None);
    assert_eq!(adapters[1].mac_address, None);
    assert!(matches_adapter("Intel[R] Ethernet I219-V", &adapters[0]));
    assert!(!matches_adapter("Wi-Fi 6 AX201", &adapters[0]));
    assert_eq!(normalized("Intel(R) Ethernet"), chars("intelrethernet"));
    assert_eq!(comma_items(&chars(" a, ,b ,")), vec!["a".to_string(), "b".to_string()]);
}

#[test]
fn counter_instance_names_are_read() {
    assert_eq!(pid_from_instance("pid_1234_luid_0x0_phys_0_eng_0_engtype_3D"), Some(1234));
    assert_eq!(pid_from_instance("no id here"), None);
    assert_eq!(engine_from_instance("pid_1_luid_0x0_phys_0_eng_3_engtype_VideoDecode"), "VideoDecode");
    assert_eq!(engine_from_instance("pid_1"), "unknown");
    assert_eq!(
        adapter_key_from_instance("pid_1_luid_0x00000000_0x0000D1A5_phys_0_eng_0_engtype_3D"),
        "luid_0x00000000_0x0000D1A5"
    );
    assert_eq!(adapter_key_from_instance("phys_2_eng_0"), "phys_2");
    assert_eq!(adapter_key_from_instance("plain"), "unknown");
    assert_eq!(disk_index("0 C:"), Some(0));
    assert_eq!(disk_index("_Total"), None);
}

#[test]
fn memory_modules_are_added_up() {
    let info = parse_memory_hardware(
        "MODULE|8589934592|3200|2666|12\nMODULE|8589934592|0|2400|8\nMODULE|junk|0|0|0\nSLOTS|4\n",
    );
    assert_eq!(info.installed_bytes, Some(17179869184));
    assert_eq!(info.speed_mhz, Some(2800));
    assert_eq!(info.slots_used, Some(3));
    assert_eq!(info.slots_total, Some(4));
    assert_eq!(info.form_factor.as_deref(), Some("SODIMM"));
    let empty = parse_memory_hardware("");
    assert_eq!(empty.installed_bytes, None);
    assert_eq!(empty.speed_mhz, None);
    assert_eq!(empty.slots_used, None);
    assert_eq!(form_factor(&chars("15")).as_deref(), Some("FB-DIMM"));
    assert_eq!(form_factor(&chars("2")), None);
}

#[test]
fn memory_totals() {
    let fallback = memory_fallback(100, 130);
    assert_eq!(fallback.installed_bytes, Some(100));
    assert_eq!(fallback.available_bytes, 0);
    assert_eq!(fallback.commit_limit_bytes, 100);
    let hardware = macos_memory_hardware(
        r#"{"SPMemoryDataType":[{"SPMemoryDataType":"16 GB","dimm_type":"LPDDR5"}]}"#,
    );
    assert_eq!(hardware.installed_bytes, Some(16 * 1024 * 1024 * 1024));
    assert_eq!(hardware.form_factor.as_deref(), Some("LPDDR5 unified memory"));
    let info = macos_memory_info(15 * 1024 * 1024 * 1024, 1024, &hardware, Some(7));
    assert_eq!(info.installed_bytes, Some(16 * 1024 * 1024 * 1024));
    assert_eq!(info.hardware_reserved_bytes, Some(1024 * 1024 * 1024));
    assert_eq!(info.compressed_bytes, Some(7));
    let plain = macos_memory_hardware(r#"{"SPHardwareDataType":[{"physical_memory":"8 GB"}]}"#);
    assert_eq!(plain.installed_bytes, Some(8 * 1024 * 1024 * 1024));
    assert_eq!(plain.form_factor.as_deref(), Some("Unified memory"));
}

#[test]
fn capacities_and_caches() {
    assert_eq!(macos_capacity_bytes("512 MB"), Some(512 * 1024 * 1024));
    assert_eq!(macos_capacity_bytes("2 KB"), Some(2048));
    assert_eq!(macos_capacity_bytes("0.5 GB"), Some(512 * 1024 * 1024));
    assert_eq!(macos_capacity_bytes("16GB"), None);
    assert_eq!(macos_capacity_bytes("16 PB"), None);
    let info = macos_cpu_cache_info_from_sysctl(
        "hw.physicalcpu: 8\nhw.l1icachesize: 32768\nhw.l1dcachesize: 49152\nhw.l2cachesize: 2097152\nhw.l3cachesize: 0\n",
    );
    assert_eq!(info.l1_bytes, Some(8 * (32768 + 49152)));
    assert_eq!(info.l2_bytes, Some(2097152));
    assert_eq!(info.l3_bytes, None);
    assert_eq!(macos_cpu_cache_info_from_sysctl("").l1_bytes, None);
    assert_eq!(saturating_mul(u64::MAX, 2), u64::MAX);
    assert_eq!(saturating_mul(6, 7), 42);
    assert_eq!(average_cpu_frequency(&vec![3000, 3501]), 3250);
    assert_eq!(average_cpu_frequency(&Vec::new()), 0);
}

#[test]
fn macos_devices_shown() {
    assert!(!macos_network_is_visible("lo0"));
    assert!(!macos_network_is_visible("utun3"));
    assert!(macos_network_is_visible("en0"));
    assert_eq!(macos_network_type("en1"), "Ethernet or Wi-Fi");
    assert_eq!(macos_network_type("bridge0"), "Network bridge");
    assert_eq!(macos_network_type("ap1"), "Network interface");
    assert_eq!(shown_mac_address("00:00:00:00:00:00".to_string()), None);
    assert_eq!(shown_mac_address("aa:bb:cc:dd:ee:ff".to_string()).as_deref(), Some("aa:bb:cc:dd:ee:ff"));
    assert!(macos_disk_is_visible("/", 1));
    assert!(macos_disk_is_visible("/Volumes/USB", 1));
    assert!(!macos_disk_is_visible("/System/Volumes/Data", 1));
    assert!(!macos_disk_is_visible("/", 0));
    assert_eq!(virtualization_status(" 1\n").as_deref(), Some("Supported"));
    assert_eq!(virtualization_status("0").as_deref(), Some("Unavailable"));
    assert_eq!(virtualization_status("maybe"), None);
}

#[test]
fn icons_become_png_data_urls() {
    assert_eq!(rgba_from_bgra(&vec![1, 2, 3, 4, 5, 6, 7, 8]), vec![3, 2, 1, 4, 7, 6, 5, 8]);
    let bgra = vec![0u8, 0, 255, 255];
    let url = icon_data_url(&bgra, 1).expect("encoded icon");
    assert!(url.starts_with("data:image/png;base64,iVBORw0KGgo"));
    assert!(url.len() > "data:image/png;base64,".len() + 20);
}
