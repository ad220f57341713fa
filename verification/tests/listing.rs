use prism::providers::listing::{
    adapter_listing, drive_listing, windows_adapter_listing, windows_drive_listing, DiskSample,
    InterfaceSample,
};
use prism::providers::windows::{DiskDriveDetails, NetworkAdapterDetails};

fn disk(mount: &str, name: &str, total: u64, available: u64) -> DiskSample {
    DiskSample {
        mount_point: mount.to_string(),
        name: name.to_string(),
        total_space: total,
        available_space: available,
        kind: "SSD".to_string(),
        file_system: "apfs".to_string(),
    }
}

fn iface(name: &str, mac: &str) -> InterfaceSample {
    InterfaceSample {
        name: name.to_string(),
        mac_address: mac.to_string(),
        ipv4_addresses: vec!["10.0.0.2".to_string()],
        ipv6_addresses: Vec::new(),
    }
}

#[test]
fn mac_drives_put_the_system_disk_first_then_sort_by_name() {
    let disks = vec![
        disk("/Volumes/Zed", "Zed", 100, 40),
        disk("/System/Volumes/Data", "Data", 100, 10),
        disk("/", "Macintosh HD", 500, 600),
        disk("/Volumes/Backup", "", 200, 50),
        disk("/Volumes/Empty", "Empty", 0, 0),
        disk("/private/var", "VM", 100, 0),
    ];
    let drives = drive_listing(&disks);
    let names: Vec<&str> = drives.iter().map(|d| d.name.as_str()).collect();
    assert_eq!(names, vec!["Macintosh HD", "/Volumes/Backup", "Zed"]);
    assert_eq!(drives.iter().map(|d| d.disk_index).collect::<Vec<_>>(), vec![0, 1, 2]);
    assert_eq!(drives.iter().map(|d| d.source).collect::<Vec<_>>(), vec![2, 3, 0]);
    assert_eq!(drives[0].system_disk, Some(true));
    assert_eq!(drives[0].formatted_bytes, Some(0));
    assert_eq!(drives[1].formatted_bytes, Some(150));
    assert_eq!(drives[1].capacity_bytes, Some(200));
    assert_eq!(drives[1].labels, vec!["/Volumes/Backup".to_string()]);
    assert_eq!(drives[2].disk_type.as_deref(), Some("SSD (apfs)"));
    assert_eq!(drives[2].page_file, None);
}

#[test]
fn windows_drives_are_numbered_by_their_counter_instances() {
    let instances = vec!["1 D:".to_string(), "_Total".to_string(), "0 C:".to_string(), "x".to_string()];
    let details = vec![DiskDriveDetails {
        disk_index: 0,
        name: "Samsung SSD".to_string(),
        labels: vec!["C:".to_string()],
        capacity_bytes: Some(1000),
        formatted_bytes: Some(900),
        system_disk: true,
        page_file: true,
        disk_type: Some("SSD (NVMe)".to_string()),
    }];
    let drives = windows_drive_listing(&instances, &details);
    assert_eq!(drives.len(), 2);
    assert_eq!(drives[0].disk_index, 0);
    assert_eq!(drives[0].name, "Samsung SSD");
    assert_eq!(drives[0].source, 2);
    assert_eq!(drives[0].system_disk, Some(true));
    assert_eq!(drives[0].labels, vec!["C:".to_string()]);
    assert_eq!(drives[1].disk_index, 1);
    assert_eq!(drives[1].name, "Disk 1");
    assert_eq!(drives[1].capacity_bytes, None);
    assert_eq!(drives[1].system_disk, None);
}

#[test]
fn mac_adapters_are_the_visible_interfaces_by_name() {
    let ifaces = vec![
        iface("utun0", "00:00:00:00:00:00"),
        iface("en1", "aa:bb:cc:dd:ee:ff"),
        iface("lo0", "00:00:00:00:00:00"),
        iface("bridge0", "00:00:00:00:00:00"),
        iface("en0", "11:22:33:44:55:66"),
    ];
    let adapters = adapter_listing(&ifaces);
    let names: Vec<&str> = adapters.iter().map(|a| a.name.as_str()).collect();
    assert_eq!(names, vec!["bridge0", "en0", "en1"]);
    assert_eq!(adapters.iter().map(|a| a.adapter_index).collect::<Vec<_>>(), vec![0, 1, 2]);
    assert_eq!(adapters[0].mac_address, None);
    assert_eq!(adapters[0].adapter_type.as_deref(), Some("Network bridge"));
    assert_eq!(adapters[1].mac_address.as_deref(), Some("11:22:33:44:55:66"));
    assert_eq!(adapters[1].adapter_type.as_deref(), Some("Ethernet or Wi-Fi"));
    assert_eq!(adapters[1].connection_name.as_deref(), Some("en0"));
    assert_eq!(adapters[1].source, 4);
    assert_eq!(adapters[2].ipv4_addresses, vec!["10.0.0.2".to_string()]);
}

#[test]
fn windows_adapters_take_names_and_numbers_from_their_details() {
    let instances = vec![
        "Realtek PCIe GbE Family Controller".to_string(),
        "Intel[R] Wi-Fi 6 AX201 160MHz".to_string(),
        "Teredo Tunneling".to_string(),
    ];
    let details = vec![NetworkAdapterDetails {
        adapter_index: Some(7),
        name: "Intel(R) Wi-Fi 6 AX201 160MHz".to_string(),
        connection_name: Some("Wi-Fi".to_string()),
        mac_address: Some("AA:BB:CC:DD:EE:FF".to_string()),
        adapter_type: Some("Ethernet 802.3".to_string()),
        link_speed_bits_per_sec: Some(1_000_000),
        ipv4_addresses: vec!["192.168.1.4".to_string()],
        ipv6_addresses: Vec::new(),
    }];
    let adapters = windows_adapter_listing(&instances, &details);
    let names: Vec<&str> = adapters.iter().map(|a| a.name.as_str()).collect();
    assert_eq!(names, vec!["Intel(R) Wi-Fi 6 AX201 160MHz", "Realtek PCIe GbE Family Controller", "Teredo Tunneling"]);
    assert_eq!(adapters[0].adapter_index, 7);
    assert_eq!(adapters[0].connection_name.as_deref(), Some("Wi-Fi"));
    assert_eq!(adapters[0].link_speed_bits_per_sec, Some(1_000_000));
    assert_eq!(adapters[0].source, 1);
    assert_eq!(adapters[1].adapter_index, 1);
    assert_eq!(adapters[1].mac_address, None);
    assert_eq!(adapters[2].adapter_index, 2);
}
