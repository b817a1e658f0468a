use disk_eraser::classify::{
    describe_device, detect_disks, get_dummy_disks, media_type_of, parse_device_list,
    DetectionError, DeviceEntry,
};
use disk_eraser::disk::{DiskInfo, MediaType, Origin, Transport};

fn entry(name: &str, transport: Transport) -> DeviceEntry {
    DeviceEntry { name: name.to_string(), transport }
}

#[test]
fn listing_skips_header_and_blank_lines() {
    let entries = parse_device_list("NAME TRAN\nsda  sata\n\n   \nsdb usb\nnvme0n1\n");
    assert_eq!(entries.len(), 3);
    assert_eq!(entries[0].name, "sda");
    assert_eq!(entries[0].transport, Transport::Sata);
    assert_eq!(entries[1].name, "sdb");
    assert_eq!(entries[1].transport, Transport::Usb);
    assert_eq!(entries[2].name, "nvme0n1");
    assert_eq!(entries[2].transport, Transport::Unknown);
}

#[test]
fn listing_transport_ignores_letter_case() {
    let entries = parse_device_list("NAME TRAN\nsda SATA\nnvme1n1 NVMe\n");
    assert_eq!(entries[0].transport, Transport::Sata);
    assert_eq!(entries[1].transport, Transport::Nvme);
}

#[test]
fn listing_with_header_only_is_empty() {
    assert!(parse_device_list("NAME TRAN\n").is_empty());
    assert!(parse_device_list("").is_empty());
}

#[test]
fn scenario_nvme_model_from_mn_field() {
    let entries = parse_device_list("NAME TRAN\nnvme0n1\n");
    assert_eq!(entries.len(), 1);
    assert!(entries[0].is_nvme());
    let report = "NVME Identify Controller:\nvid       : 0x144d\nmn : Samsung PM9A1\nfr        : 1.0\n";
    let d = describe_device(&entries[0], Some(report));
    assert_eq!(d.device_name, "/dev/nvme0n1");
    assert_eq!(d.model, "Samsung PM9A1");
    assert_eq!(d.device_type, MediaType::Ssd);
    assert_eq!(d.transport, Transport::Nvme);
    assert_eq!(d.origin, Origin::Detected);
}

#[test]
fn scenario_rotation_rate_means_hdd() {
    let entries = parse_device_list("NAME TRAN\nsda sata\n");
    let report = "ATA device, with non-removable media\n\tModel Number:       WDC WD20EZRZ-00Z5HB0\n\tNominal Media Rotation Rate: 7200\n";
    let d = describe_device(&entries[0], Some(report));
    assert_eq!(d.device_name, "/dev/sda");
    assert_eq!(d.model, "WDC WD20EZRZ-00Z5HB0");
    assert_eq!(d.device_type, MediaType::Hdd);
    assert_eq!(d.transport, Transport::Sata);
}

#[test]
fn scenario_solid_state_rotation_without_model() {
    let report = "ATA device\n\tNominal Media Rotation Rate: Solid State Device\n";
    let d = describe_device(&entry("sda", Transport::Sata), Some(report));
    assert_eq!(d.device_type, MediaType::Ssd);
    assert_eq!(d.model, "Disk sda");
    assert!(d.model.contains("sda"));
}

#[test]
fn first_model_line_wins() {
    let report = "Model Number: First Model\nModel Number: Second Model\n";
    let d = describe_device(&entry("sdc", Transport::Usb), Some(report));
    assert_eq!(d.model, "First Model");
    assert_eq!(d.transport, Transport::Usb);
}

#[test]
fn flash_marker_in_report_means_ssd() {
    let report = "Model Number: Generic Drive\nTransport: Flash memory\n";
    let d = describe_device(&entry("sdd", Transport::Usb), Some(report));
    assert_eq!(d.device_type, MediaType::Ssd);
}

#[test]
fn model_name_in_any_case_decides_last() {
    let report = "Model Number: Acme HardDisk 500\n";
    let d = describe_device(&entry("sde", Transport::Sata), Some(report));
    assert_eq!(d.device_type, MediaType::Hdd);
    let report = "Model Number: Acme NVMe Bridge\n";
    let d = describe_device(&entry("sdf", Transport::Usb), Some(report));
    assert_eq!(d.device_type, MediaType::Ssd);
}

#[test]
fn zero_rotation_rate_is_not_hdd() {
    assert_eq!(media_type_of("Rotation Rate: 0\n", "plain"), MediaType::Unknown);
    assert_eq!(media_type_of("Rotation Rate: +5400\n", "plain"), MediaType::Hdd);
    assert_eq!(media_type_of("Rotation Rate: 99999999999\n", "plain"), MediaType::Unknown);
    assert_eq!(media_type_of("Rotation Rate: fast\n", "a solid drive"), MediaType::Ssd);
    assert_eq!(media_type_of("nothing here\n", "a hard drive"), MediaType::Hdd);
}

#[test]
fn failed_query_gives_placeholder() {
    let d = describe_device(&entry("sdb", Transport::Sata), None);
    assert_eq!(d.device_name, "/dev/sdb");
    assert_eq!(d.model, "Disk sdb");
    assert_eq!(d.device_type, MediaType::Unknown);
    assert_eq!(d.transport, Transport::Sata);
    let d = describe_device(&entry("nvme1n1", Transport::Unknown), None);
    assert_eq!(d.model, "NVMe Drive nvme1n1");
    assert_eq!(d.device_type, MediaType::Ssd);
    assert_eq!(d.transport, Transport::Nvme);
}

#[test]
fn empty_detection_is_reported() {
    let r = detect_disks(&Vec::new(), &Vec::new());
    assert_eq!(r.unwrap_err(), DetectionError::NoDevices);
}

fn key(d: &DiskInfo) -> (String, MediaType, Transport) {
    (d.device_name.clone(), d.device_type, d.transport)
}

#[test]
fn detection_twice_gives_same_devices() {
    let listing = "NAME TRAN\nsda sata\nnvme0n1 nvme\nsdb usb\n";
    let reports = vec![
        Some("Model Number: X\nRotation Rate: 7200\n".to_string()),
        Some("mn : Samsung PM9A1\n".to_string()),
        None,
    ];
    let first = detect_disks(&parse_device_list(listing), &reports).unwrap();
    let second = detect_disks(&parse_device_list(listing), &reports).unwrap();
    assert_eq!(first.len(), 3);
    let a: Vec<_> = first.iter().map(key).collect();
    let b: Vec<_> = second.iter().map(key).collect();
    assert_eq!(a, b);
    assert_eq!(a[0], ("/dev/sda".to_string(), MediaType::Hdd, Transport::Sata));
    assert_eq!(a[2], ("/dev/sdb".to_string(), MediaType::Unknown, Transport::Usb));
}

#[test]
fn stand_in_disks_are_marked() {
    let disks = get_dummy_disks();
    assert_eq!(disks.len(), 3);
    assert!(disks.iter().all(|d| d.origin == Origin::Synthesized));
    assert_eq!(disks[0].device_name, "/dev/sda");
    assert_eq!(disks[1].device_type, MediaType::Hdd);
    assert_eq!(disks[2].transport, Transport::Nvme);
}

#[test]
fn device_listed_twice_is_described_once() {
    let entries = parse_device_list("NAME TRAN\nsda sata\nsdb usb\nsda usb\n");
    let reports = vec![
        Some("Rotation Rate: 7200\n".to_string()),
        None,
        Some("Rotation Rate: Solid State Device\n".to_string()),
    ];
    let disks = detect_disks(&entries, &reports).unwrap();
    assert_eq!(disks.len(), 2);
    assert_eq!(disks[0].device_name, "/dev/sda");
    assert_eq!(disks[0].device_type, MediaType::Hdd);
    assert_eq!(disks[0].transport, Transport::Sata);
    assert_eq!(disks[1].device_name, "/dev/sdb");
}
