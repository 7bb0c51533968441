use disk_usage::display::{format_bytes, get_usage_color, truncate_string, Band};
use disk_usage::filter::sort_disks;
use disk_usage::types::{DiskInfo, SortBy, UsageThresholds};

const GB: u64 = 1024 * 1024 * 1024;

#[test]
fn test_format_bytes() {
    assert_eq!(format_bytes(1024), "1.00 KB");
    assert_eq!(format_bytes(1024 * 1024), "1.00 MB");
    assert_eq!(format_bytes(1024 * 1024 * 1024), "1.00 GB");
    assert_eq!(format_bytes(1024u64 * 1024 * 1024 * 1024), "1.00 TB");
}

#[test]
fn test_usage_color() {
    let thresholds = UsageThresholds::default();
    assert_eq!(get_usage_color(50, 100, &thresholds, true), Band::Normal);
    assert_eq!(get_usage_color(75, 100, &thresholds, true), Band::Warning);
    assert_eq!(get_usage_color(95, 100, &thresholds, true), Band::Critical);
}

#[test]
fn test_truncate_string() {
    assert_eq!(truncate_string("hello", 10), "hello");
    assert_eq!(truncate_string("hello world this is long", 10), "hello w...");
}

#[test]
fn test_sort_by_usage() {
    let mut disks = vec![
        DiskInfo::new(
            "sda1".to_string(),
            "/".to_string(),
            100 * GB,
            50 * GB,
            "ext4".to_string(),
        ),
        DiskInfo::new(
            "sdb1".to_string(),
            "/home".to_string(),
            100 * GB,
            10 * GB,
            "ext4".to_string(),
        ),
    ];
    sort_disks(&mut disks, SortBy::Usage);
    assert!(disks[0].usage_tenths > disks[1].usage_tenths);
}

#[test]
fn test_sort_by_size() {
    let mut disks = vec![
        DiskInfo::new(
            "sda1".to_string(),
            "/".to_string(),
            50 * GB,
            10 * GB,
            "ext4".to_string(),
        ),
        DiskInfo::new(
            "sdb1".to_string(),
            "/home".to_string(),
            100 * GB,
            10 * GB,
            "ext4".to_string(),
        ),
    ];
    sort_disks(&mut disks, SortBy::Size);
    assert!(disks[0].total_space > disks[1].total_space);
}

#[test]
fn test_disk_info_creation() {
    let disk = DiskInfo::new(
        "sda1".to_string(),
        "/".to_string(),
        1024 * 1024 * 1024 * 100,
        1024 * 1024 * 1024 * 30,
        "ext4".to_string(),
    );
    assert_eq!(disk.used_space, 1024 * 1024 * 1024 * 70);
    assert_eq!(disk.usage_tenths, 700);
    assert!(disk.meets_size_threshold(1));
    assert!(!disk.meets_size_threshold(200));
}

#[test]
fn test_size_threshold() {
    let disk = DiskInfo::new(
        "sda1".to_string(),
        "/".to_string(),
        500 * 1024 * 1024,
        100 * 1024 * 1024,
        "ext4".to_string(),
    );
    assert!(!disk.meets_size_threshold(1));
}
